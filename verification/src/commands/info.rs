//! INFO

use super::{ascii, bytes_of, Outcome, RedisCommand};
use crate::redis::instance::{Instance, State};
use crate::resp::decimal::{decimal_digits, push_decimal};
use crate::resp::{bulk_string_wire, create_bulk_string_resp};
use vstd::prelude::*;

verus! {

/// INFO: replies the role of the server and, on a leader, the id and the
/// offset of its replication stream, one `name:value` to a line.
pub struct InfoCommand {}

/// The text that INFO replies.
pub open spec fn info_text(s: State) -> Seq<u8> {
    if s.leader {
        ascii("role:master\r\nmaster_replid:") + s.repl_id + ascii("\r\nmaster_repl_offset:")
            + decimal_digits(s.offset as nat)
    } else {
        ascii("role:slave")
    }
}

/// What INFO gives.
pub open spec fn info_outcome(before: State) -> Outcome {
    Outcome { state: before, reply: Some(bulk_string_wire(info_text(before))) }
}

impl InfoCommand {
    pub fn new() -> (c: Self) {
        InfoCommand {  }
    }
}

impl RedisCommand for InfoCommand {
    open spec fn outcome(&self, before: State, now: u128) -> Outcome {
        info_outcome(before)
    }

    fn execute(&self, instance: &mut Instance, now: u128) -> (reply: Option<Vec<u8>>) {
        if instance.is_master {
            let mut text = bytes_of("role:master\r\nmaster_replid:");
            text.extend_from_slice(instance.master_repl_id.as_slice());
            let mut label = bytes_of("\r\nmaster_repl_offset:");
            text.append(&mut label);
            push_decimal(&mut text, instance.master_repl_offset);
            assert(text@ =~= info_text(instance@));
            Some(create_bulk_string_resp(text))
        } else {
            Some(create_bulk_string_resp(bytes_of("role:slave")))
        }
    }
}

} // verus!
