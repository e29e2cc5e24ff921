//! PSYNC

use super::{
    ascii, bump, bytes_of, find_bytes, lemma_ids_stay_distinct, with_id, Outcome, RedisCommand,
};
use crate::rdb::rdb::{empty_snapshot, empty_snapshot_bytes};
use crate::redis::instance::{Instance, State};
use crate::resp::decimal::{decimal_digits, push_decimal};
use crate::resp::{create_simple_string_resp, raw_payload_wire, simple_string_wire, views, CR, LF};
use vstd::prelude::*;

verus! {

/// PSYNC: starts a full resynchronisation. The reply names the id and
/// the offset of the replication stream and is followed at once by a
/// snapshot without keys, as a raw payload. The connection becomes a
/// follower; where no write is pending it counts as having acknowledged.
pub struct PsyncCommand {
    pub connection_id: Vec<u8>,
}

/// The reply to PSYNC.
pub open spec fn psync_reply(s: State) -> Seq<u8> {
    simple_string_wire(
        ascii("FULLRESYNC ") + s.repl_id + seq![32u8] + decimal_digits(s.offset as nat),
    ) + raw_payload_wire(empty_snapshot_bytes())
}

/// What PSYNC gives.
pub open spec fn psync_outcome(before: State, id: Seq<u8>) -> Outcome {
    Outcome {
        state: State {
            followers: with_id(before.followers, id),
            acks: if !before.followers.contains(id) && before.pending.len() == 0 {
                bump(before.acks)
            } else {
                before.acks
            },
            ..before
        },
        reply: Some(psync_reply(before)),
    }
}

impl PsyncCommand {
    pub fn new(connection_id: Vec<u8>) -> (c: Self)
        ensures
            c.connection_id == connection_id,
    {
        PsyncCommand { connection_id }
    }
}

impl RedisCommand for PsyncCommand {
    open spec fn outcome(&self, before: State, now: u128) -> Outcome {
        psync_outcome(before, self.connection_id@)
    }

    fn execute(&self, instance: &mut Instance, now: u128) -> (reply: Option<Vec<u8>>) {
        let mut text = bytes_of("FULLRESYNC ");
        text.extend_from_slice(instance.master_repl_id.as_slice());
        text.push(32u8);
        push_decimal(&mut text, instance.master_repl_offset);
        assert(text@ =~= ascii("FULLRESYNC ") + instance@.repl_id + seq![32u8] + decimal_digits(
            instance@.offset as nat,
        ));
        let mut out = create_simple_string_resp(text);
        let snapshot = empty_snapshot();
        out.push(36u8);
        push_decimal(&mut out, snapshot.len() as u128);
        out.push(CR);
        out.push(LF);
        out.extend_from_slice(snapshot.as_slice());
        assert(out@ =~= psync_reply(instance@));
        proof {
            lemma_ids_stay_distinct(instance@.followers, self.connection_id@);
        }
        if find_bytes(&instance.replica_clients, self.connection_id.as_slice()).is_none() {
            instance.replica_clients.push(self.connection_id.clone());
            assert(views(instance.replica_clients@) =~= with_id(
                old(instance)@.followers,
                self.connection_id@,
            ));
            if instance.write_commands.len() == 0 && instance.ack_replicas < usize::MAX {
                instance.ack_replicas = instance.ack_replicas + 1;
            }
        }
        Some(out)
    }
}

} // verus!
