//! REPLCONF

use super::{
    ascii, bump, bytes_of, create_ok_resp, is_word, matches_word, ok_wire, Outcome, RedisCommand,
};
use crate::redis::instance::{Instance, State};
use crate::resp::decimal::{decimal_digits, push_decimal};
use crate::resp::{
    array_wire, bulk_string_wire, create_array_resp, create_basic_err_resp,
    create_bulk_string_resp, error_wire, views,
};
use vstd::prelude::*;

verus! {

/// REPLCONF: the messages of the replication handshake and of the
/// acknowledgement protocol.
///
/// `listening-port` and `capa` are acknowledged with `OK`. `GETACK`, which
/// a leader sends, is answered with the number of bytes consumed from the
/// leader so far. `ACK` gets no reply; where a follower sends it, it
/// counts as one more acknowledgement.
pub struct ReplConfCommand {
    pub keyword: Vec<u8>,
    /// Whether the connection that sends the command is that of a
    /// follower.
    pub from_replica: bool,
}

/// The answer to GETACK: `REPLCONF ACK <offset>`.
pub open spec fn ack_wire(offset: u128) -> Seq<u8> {
    array_wire(
        seq![
            bulk_string_wire(ascii("REPLCONF")),
            bulk_string_wire(ascii("ACK")),
            bulk_string_wire(decimal_digits(offset as nat)),
        ],
    )
}

/// The error of a keyword that REPLCONF does not know.
pub open spec fn unknown_option_wire() -> Seq<u8> {
    error_wire(ascii("ERR Unrecognized REPLCONF option"))
}

/// What REPLCONF gives.
pub open spec fn replconf_outcome(before: State, keyword: Seq<u8>, from_replica: bool) -> Outcome {
    if is_word(keyword, "listening-port") || is_word(keyword, "capa") {
        Outcome { state: before, reply: Some(ok_wire()) }
    } else if is_word(keyword, "getack") {
        Outcome { state: before, reply: Some(ack_wire(before.offset)) }
    } else if is_word(keyword, "ack") {
        Outcome {
            state: if from_replica {
                State { acks: bump(before.acks), ..before }
            } else {
                before
            },
            reply: Some(Seq::empty()),
        }
    } else {
        Outcome { state: before, reply: Some(unknown_option_wire()) }
    }
}

/// Encodes the answer to GETACK.
pub fn create_ack_resp(offset: u128) -> (out: Vec<u8>)
    ensures
        out@ == ack_wire(offset),
{
    let mut digits: Vec<u8> = Vec::new();
    push_decimal(&mut digits, offset);
    assert(digits@ =~= decimal_digits(offset as nat));
    let mut items: Vec<Vec<u8>> = Vec::new();
    items.push(create_bulk_string_resp(bytes_of("REPLCONF")));
    items.push(create_bulk_string_resp(bytes_of("ACK")));
    items.push(create_bulk_string_resp(digits));
    assert(views(items@) =~= seq![
        bulk_string_wire(ascii("REPLCONF")),
        bulk_string_wire(ascii("ACK")),
        bulk_string_wire(decimal_digits(offset as nat)),
    ]);
    create_array_resp(items)
}

impl ReplConfCommand {
    pub fn new(keyword: Vec<u8>, from_replica: bool) -> (c: Self)
        ensures
            c.keyword == keyword,
            c.from_replica == from_replica,
    {
        ReplConfCommand { keyword, from_replica }
    }
}

impl RedisCommand for ReplConfCommand {
    open spec fn outcome(&self, before: State, now: u128) -> Outcome {
        replconf_outcome(before, self.keyword@, self.from_replica)
    }

    fn execute(&self, instance: &mut Instance, now: u128) -> (reply: Option<Vec<u8>>) {
        let keyword = self.keyword.as_slice();
        if matches_word(keyword, "listening-port") || matches_word(keyword, "capa") {
            Some(create_ok_resp())
        } else if matches_word(keyword, "getack") {
            Some(create_ack_resp(instance.master_repl_offset))
        } else if matches_word(keyword, "ack") {
            if self.from_replica && instance.ack_replicas < usize::MAX {
                instance.ack_replicas = instance.ack_replicas + 1;
            }
            Some(Vec::new())
        } else {
            Some(create_basic_err_resp(bytes_of("ERR Unrecognized REPLCONF option")))
        }
    }
}

} // verus!
