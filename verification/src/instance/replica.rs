//! What a follower decides: what it says in the handshake, and what it
//! makes of the bytes that its leader sends.

use crate::commands::{ascii, bytes_of, is_word, matches_word};
use crate::instance::master::advanced;
use crate::redis::client::{Client, Session, Step};
use crate::redis::dispatch::{command_args, extract_args};
use crate::redis::transaction::{reply_of, run_one};
use crate::redis::instance::{Instance, State};
use crate::rdb::rdb::{loaded, snapshot_of, Rdb, RdbError};
use crate::redis::store::Table;
use crate::resp::types::{
    frame_at, lemma_frame_at_advances, parse_in, raw_payload_at, raw_payload_in, Frame, Parsed,
    ParsedPayload, RespType,
};
use crate::resp::{array_wire, views, Fault};
use vstd::prelude::*;

verus! {

/// A command as a client sends it: an array of bulk strings.
pub open spec fn command_wire(words: Seq<Seq<u8>>) -> Seq<u8> {
    array_wire(crate::commands::bulks(words))
}

/// What a follower sends its leader to become its follower, one message
/// after the reply to the one before: PING, its port, its capabilities,
/// and the request for a full resynchronisation.
pub open spec fn handshake_wires(port: Seq<u8>) -> Seq<Seq<u8>> {
    seq![
        command_wire(seq![ascii("PING")]),
        command_wire(seq![ascii("REPLCONF"), ascii("listening-port"), port]),
        command_wire(seq![ascii("REPLCONF"), ascii("capa"), ascii("psync2")]),
        command_wire(seq![ascii("PSYNC"), ascii("?"), ascii("-1")]),
    ]
}

/// Encodes a command.
pub fn create_command(words: Vec<Vec<u8>>) -> (out: Vec<u8>)
    ensures
        out@ == command_wire(views(words@)),
{
    assert(views(words@).subrange(0, words.len() as int) =~= views(words@));
    crate::commands::create_bulk_array_resp(&words, 0, words.len())
}

/// The messages of the handshake of a follower that listens on `port`.
pub fn handshake_messages(port: &Vec<u8>) -> (out: Vec<Vec<u8>>)
    ensures
        views(out@) == handshake_wires(port@),
{
    let mut ping: Vec<Vec<u8>> = Vec::new();
    ping.push(bytes_of("PING"));
    assert(views(ping@) =~= seq![ascii("PING")]);
    let mut listening: Vec<Vec<u8>> = Vec::new();
    listening.push(bytes_of("REPLCONF"));
    listening.push(bytes_of("listening-port"));
    listening.push(port.clone());
    assert(views(listening@) =~= seq![ascii("REPLCONF"), ascii("listening-port"), port@]);
    let mut capa: Vec<Vec<u8>> = Vec::new();
    capa.push(bytes_of("REPLCONF"));
    capa.push(bytes_of("capa"));
    capa.push(bytes_of("psync2"));
    assert(views(capa@) =~= seq![ascii("REPLCONF"), ascii("capa"), ascii("psync2")]);
    let mut psync: Vec<Vec<u8>> = Vec::new();
    psync.push(bytes_of("PSYNC"));
    psync.push(bytes_of("?"));
    psync.push(bytes_of("-1"));
    assert(views(psync@) =~= seq![ascii("PSYNC"), ascii("?"), ascii("-1")]);
    let mut out: Vec<Vec<u8>> = Vec::new();
    out.push(create_command(ping));
    out.push(create_command(listening));
    out.push(create_command(capa));
    out.push(create_command(psync));
    assert(views(out@) =~= handshake_wires(port@));
    out
}

/// Why the answer of a leader to the request for a full
/// resynchronisation cannot be taken.
#[derive(Debug, Clone, Copy, PartialEq, Eq, Structural)]
pub enum ResyncError {
    /// The bytes hold no reply with a raw payload behind it. With the
    /// fault `Incomplete` more bytes may complete them.
    Frame(Fault),
    /// The payload is no snapshot.
    Snapshot(RdbError),
}

/// What a follower makes of the answer to its request for a full
/// resynchronisation: a string, which names the replication stream, and
/// behind it a snapshot as a raw payload. The keys of the snapshot are
/// written into the table; the position is the one behind the payload.
pub open spec fn resynced(table: Table, buf: Seq<u8>) -> Result<(Table, int), ResyncError> {
    match frame_at(buf, 0) {
        Parsed::Frame(Frame::String(_), next) => match raw_payload_at(buf, next) {
            ParsedPayload::Bytes(data, end) => match snapshot_of(data) {
                Ok(snapshot) => Ok((loaded(table, snapshot.entries), end)),
                Err(e) => Err(ResyncError::Snapshot(e)),
            },
            ParsedPayload::Fail(fault) => Err(ResyncError::Frame(fault)),
        },
        Parsed::Frame(_, _) => Err(ResyncError::Frame(Fault::Type)),
        Parsed::Fail(fault) => Err(ResyncError::Frame(fault)),
    }
}

impl Instance {
    /// Takes the answer of the leader to the request for a full
    /// resynchronisation and writes the keys of its snapshot into the
    /// store. On success the result is the number of bytes taken; on
    /// failure nothing changes.
    pub fn resync(&mut self, buf: &[u8]) -> (r: Result<usize, ResyncError>)
        requires
            old(self).wf(),
        ensures
            final(self).wf(),
            match resynced(old(self)@.table, buf@) {
                Ok((table, end)) => r == Ok::<usize, ResyncError>(end as usize) && end
                    <= buf.len() && final(self)@ == (State { table, ..old(self)@ }),
                Err(e) => r == Err::<usize, ResyncError>(e) && final(self)@ == old(self)@,
            },
    {
        let next = match parse_in(buf, 0) {
            Ok((RespType::String(_), next)) => next,
            Ok(_) => {
                return Err(ResyncError::Frame(Fault::Type));
            },
            Err(e) => {
                return Err(ResyncError::Frame(e.kind()));
            },
        };
        let (data, end) = match raw_payload_in(buf, next) {
            Ok(found) => found,
            Err(e) => {
                return Err(ResyncError::Frame(e.kind()));
            },
        };
        match Rdb::parse(data.as_slice()) {
            Ok(rdb) => {
                rdb.apply_to_db(&mut self.cache);
                Ok(end)
            },
            Err(e) => Err(ResyncError::Snapshot(e)),
        }
    }
}

/// Whether a follower answers a command of its leader: it answers the
/// request for an acknowledgement and nothing else.
pub open spec fn answers_leader(frame: Frame) -> bool {
    command_args(frame) matches Some(args) && args.len() >= 2 && is_word(args[0], "replconf")
        && is_word(args[1], "getack")
}

fn is_getack(cmd: &RespType) -> (b: bool)
    ensures
        b == answers_leader(cmd@),
{
    match extract_args(cmd) {
        Some(args) => args.len() >= 2 && matches_word(args[0].as_slice(), "replconf")
            && matches_word(args[1].as_slice(), "getack"),
        None => false,
    }
}

/// What a follower has made of the bytes of its leader.
pub struct Fed {
    /// The connection to the leader after the commands.
    pub session: Session,
    /// The shared state after the commands.
    pub state: State,
    /// What the leader is to be sent.
    pub out: Seq<u8>,
    /// The position behind the last command that was carried out.
    pub end: int,
    /// Why the bytes behind that position hold no command, where they do
    /// not just end there.
    pub fault: Fault,
}

/// What a follower makes of the bytes of its leader from `pos` on. It
/// carries out one command after the other, answers each request for an
/// acknowledgement with the bytes consumed before that request, and then
/// counts the bytes of the command as consumed. It stops where the bytes
/// end or hold no frame. (A frame always ends behind its start; that this
/// is asked for here only shows that the definition is well founded.)
pub open spec fn fed(session: Session, state: State, buf: Seq<u8>, pos: int, now: u128) -> Fed
    decreases buf.len() - pos,
{
    match frame_at(buf, pos) {
        Parsed::Frame(frame, next) => if pos < next <= buf.len() {
            let turn = run_one(session, state, frame, now, false);
            let counted = State {
                offset: advanced(turn.state.offset, (next - pos) as nat),
                ..turn.state
            };
            let rest = fed(turn.session, counted, buf, next, now);
            Fed {
                out: if answers_leader(frame) {
                    reply_of(turn.next) + rest.out
                } else {
                    rest.out
                },
                ..rest
            }
        } else {
            Fed { session, state, out: Seq::empty(), end: pos, fault: Fault::Incomplete }
        },
        Parsed::Fail(fault) => Fed { session, state, out: Seq::empty(), end: pos, fault },
    }
}

/// What a follower is to do after it has been fed the bytes of its
/// leader.
#[derive(Debug)]
pub struct Feed {
    /// What the leader is to be sent.
    pub out: Vec<u8>,
    /// How many of the bytes have been consumed; the others are to be
    /// fed again with what arrives next.
    pub consumed: usize,
    /// Whether the bytes that were not consumed are malformed, so that
    /// the connection is to be closed.
    pub malformed: bool,
}

impl Client {
    /// Feeds the connection to the leader the bytes that have arrived.
    #[verifier::rlimit(40)]
    pub fn consume(&mut self, instance: &mut Instance, buf: &[u8], now: u128) -> (feed: Feed)
        requires
            old(self).wf(),
            old(instance).wf(),
        ensures
            final(self).wf(),
            final(instance).wf(),
            ({
                let f = fed(old(self)@, old(instance)@, buf@, 0, now);
                &&& final(self)@ == f.session
                &&& final(instance)@ == f.state
                &&& feed.out@ == f.out
                &&& feed.consumed == f.end
                &&& feed.malformed == (f.fault != Fault::Incomplete)
            }),
    {
        let mut out: Vec<u8> = Vec::new();
        let mut cur: usize = 0;
        loop
            invariant
                cur <= buf.len(),
                self.wf(),
                instance.wf(),
                ({
                    let whole = fed(old(self)@, old(instance)@, buf@, 0, now);
                    let rest = fed(self@, instance@, buf@, cur as int, now);
                    whole == Fed { out: out@ + rest.out, ..rest }
                }),
            decreases buf.len() - cur,
        {
            match parse_in(buf, cur) {
                Ok((frame, next)) => {
                    proof {
                        lemma_frame_at_advances(buf@, cur as int);
                    }
                    let answer = is_getack(&frame);
                    let ghost before = out@;
                    let ghost turn = run_one(self@, instance@, frame@, now, false);
                    let step = self.run_one(instance, &frame, now, false);
                    if answer {
                        match step {
                            Step::Reply(mut reply) => {
                                out.append(&mut reply);
                            },
                            Step::Wait(_) => {},
                        }
                    }
                    let width = (next - cur) as u128;
                    instance.master_repl_offset = if width > u128::MAX
                        - instance.master_repl_offset {
                        u128::MAX
                    } else {
                        instance.master_repl_offset + width
                    };
                    proof {
                        let rest = fed(self@, instance@, buf@, next as int, now);
                        if answer {
                            assert(before + (reply_of(turn.next) + rest.out) =~= out@ + rest.out);
                        }
                    }
                    cur = next;
                },
                Err(e) => {
                    proof {
                        assert(out@ + Seq::<u8>::empty() =~= out@);
                    }
                    return Feed { out, consumed: cur, malformed: !e.is_incomplete() };
                },
            }
        }
    }
}

} // verus!
