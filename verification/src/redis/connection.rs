//! The cycle of one connection: from the bytes that have arrived to the
//! bytes that are to be sent.

use super::client::{Blocked, Client, Next, Pending, Session, Step};
use super::instance::{Instance, State};
use super::transaction::handle;
use crate::resp::types::{frame_at, lemma_frame_at_advances, parse_in, Parsed};
use crate::resp::Fault;
use vstd::prelude::*;

verus! {

/// What a connection has made of the bytes of its client.
pub struct Served {
    /// The connection after the commands.
    pub session: Session,
    /// The shared state after the commands.
    pub state: State,
    /// The replies, one behind the other.
    pub out: Seq<u8>,
    /// The position behind the last command that was handled.
    pub end: int,
    /// The command that waits, where the last command does.
    pub waits: Option<Pending>,
    /// Why the bytes behind that position hold no command, where they do
    /// not just end there.
    pub fault: Fault,
}

/// What a connection makes of the bytes of its client from `pos` on. It
/// handles one frame after the other, in their order, and stops where
/// the bytes end or hold no frame, or behind a command that waits. (A
/// frame always ends behind its start; that this is asked for here only
/// shows that the definition is well founded.)
pub open spec fn served(session: Session, state: State, buf: Seq<u8>, pos: int, now: u128) -> Served
    decreases buf.len() - pos,
{
    match frame_at(buf, pos) {
        Parsed::Frame(frame, next) => if pos < next <= buf.len() {
            let turn = handle(session, state, frame, now);
            match turn.next {
                Next::Reply(reply) => {
                    let rest = served(turn.session, turn.state, buf, next, now);
                    Served { out: reply + rest.out, ..rest }
                },
                Next::Wait(pending) => Served {
                    session: turn.session,
                    state: turn.state,
                    out: Seq::empty(),
                    end: next,
                    waits: Some(pending),
                    fault: Fault::Incomplete,
                },
            }
        } else {
            Served {
                session,
                state,
                out: Seq::empty(),
                end: pos,
                waits: None,
                fault: Fault::Incomplete,
            }
        },
        Parsed::Fail(fault) => Served {
            session,
            state,
            out: Seq::empty(),
            end: pos,
            waits: None,
            fault,
        },
    }
}

/// What a connection is to do after it has been given the bytes of its
/// client.
pub struct Service {
    /// What the client is to be sent.
    pub out: Vec<u8>,
    /// How many of the bytes have been consumed; the others are to be
    /// given again with what arrives next.
    pub consumed: usize,
    /// The command that waits. Its reply is due before the bytes that
    /// have not been consumed are given again.
    pub waits: Option<Blocked>,
    /// Whether the bytes that were not consumed are malformed, so that
    /// the connection is to be closed.
    pub malformed: bool,
}

/// The command that waits, as a mathematical value.
pub open spec fn pending_of(waits: Option<Blocked>) -> Option<Pending> {
    match waits {
        Some(blocked) => Some(blocked@),
        None => None,
    }
}

impl Client {
    /// Gives the connection the bytes of its client that have arrived, at
    /// time `now`.
    #[verifier::rlimit(40)]
    pub fn serve(&mut self, instance: &mut Instance, buf: &[u8], now: u128) -> (service: Service)
        requires
            old(self).wf(),
            old(instance).wf(),
        ensures
            final(self).wf(),
            final(instance).wf(),
            ({
                let s = served(old(self)@, old(instance)@, buf@, 0, now);
                &&& final(self)@ == s.session
                &&& final(instance)@ == s.state
                &&& service.out@ == s.out
                &&& service.consumed == s.end
                &&& pending_of(service.waits) == s.waits
                &&& service.malformed == (s.fault != Fault::Incomplete)
            }),
    {
        let mut out: Vec<u8> = Vec::new();
        let mut cur: usize = 0;
        loop
            invariant
                cur <= buf.len(),
                self.wf(),
                instance.wf(),
                ({
                    let whole = served(old(self)@, old(instance)@, buf@, 0, now);
                    let rest = served(self@, instance@, buf@, cur as int, now);
                    whole == Served { out: out@ + rest.out, ..rest }
                }),
            decreases buf.len() - cur,
        {
            match parse_in(buf, cur) {
                Ok((frame, next)) => {
                    proof {
                        lemma_frame_at_advances(buf@, cur as int);
                    }
                    let ghost before = out@;
                    let ghost turn = handle(self@, instance@, frame@, now);
                    match self.handle_command(instance, frame, now) {
                        Step::Reply(mut reply) => {
                            out.append(&mut reply);
                            proof {
                                let rest = served(self@, instance@, buf@, next as int, now);
                                assert(before + (turn.next->Reply_0 + rest.out) =~= out@ + rest.out);
                            }
                            cur = next;
                        },
                        Step::Wait(blocked) => {
                            proof {
                                assert(out@ + Seq::<u8>::empty() =~= out@);
                            }
                            return Service {
                                out,
                                consumed: next,
                                waits: Some(blocked),
                                malformed: false,
                            };
                        },
                    }
                },
                Err(e) => {
                    proof {
                        assert(out@ + Seq::<u8>::empty() =~= out@);
                    }
                    return Service {
                        out,
                        consumed: cur,
                        waits: None,
                        malformed: !e.is_incomplete(),
                    };
                },
            }
        }
    }
}

} // verus!
