//! Commands one at a time and in transactions: what handling a frame
//! gives, and what a leader keeps for its followers.

use super::client::{Client, Next, Session, Step};
use super::dispatch::{
    command_args, command_name, command_word, create_refusal, dispatch, extract_args, refuse,
    settled, took, Turn,
};
use super::instance::{Instance, State};
use crate::commands::{ascii, bytes_of, create_ok_resp, is_word, matches_word, ok_wire};
use crate::resp::types::{frames_of, Frame, RespType};
use crate::resp::wire::wire;
use crate::resp::{
    array_wire, create_array_resp, create_simple_string_resp, simple_string_wire, views,
};
use vstd::prelude::*;

verus! {

/// Whether a command changes the store, so that a leader hands it on
/// to its followers.
pub open spec fn is_write(name: Seq<u8>) -> bool {
    is_word(name, "set") || is_word(name, "incr") || is_word(name, "rpush") || is_word(
        name,
        "lpush",
    ) || is_word(name, "lpop") || is_word(name, "xadd")
}

fn names_write(name: &[u8]) -> (b: bool)
    ensures
        b == is_write(name@),
{
    matches_word(name, "set") || matches_word(name, "incr") || matches_word(name, "rpush")
        || matches_word(name, "lpush") || matches_word(name, "lpop") || matches_word(
        name,
        "xadd",
    )
}

/// Whether a reply is an error.
pub open spec fn is_error(reply: Seq<u8>) -> bool {
    reply.len() > 0 && reply[0] == 45
}

/// Whether a turn has a leader hand the command on: the command is a
/// write and its reply is no error.
pub open spec fn hands_on(before: State, args: Seq<Seq<u8>>, turn: Turn) -> bool {
    before.leader && is_write(args[0]) && (turn.next matches Next::Reply(reply) && !is_error(
        reply,
    ))
}

/// What one command does outside a transaction. The frame of a write
/// that a leader has carried out joins the pending writes, behind those
/// that are there.
pub open spec fn run_one(
    session: Session,
    state: State,
    frame: Frame,
    now: u128,
    may_wait: bool,
) -> Turn {
    match command_args(frame) {
        None => settled(
            session,
            refuse(state, "ERR Protocol error: expected an array of bulk strings"),
        ),
        Some(args) => {
            let turn = dispatch(session, state, args, now, may_wait);
            if hands_on(state, args, turn) {
                Turn {
                    state: State { pending: turn.state.pending.push(wire(frame)), ..turn.state },
                    ..turn
                }
            } else {
                turn
            }
        },
    }
}

/// What the commands of a transaction do, one after the other, each on
/// the state that the one before it left: the connection and the shared
/// state after the last of them, and their replies in order.
pub open spec fn run_all(session: Session, state: State, frames: Seq<Frame>, now: u128) -> (
    Session,
    State,
    Seq<Seq<u8>>,
)
    decreases frames.len(),
{
    if frames.len() == 0 {
        (session, state, Seq::empty())
    } else {
        let (s, t, replies) = run_all(session, state, frames.drop_last(), now);
        let turn = run_one(s, t, frames.last(), now, false);
        (turn.session, turn.state, replies.push(reply_of(turn.next)))
    }
}

/// The reply of a step; a step that waits has none.
pub open spec fn reply_of(next: Next) -> Seq<u8> {
    match next {
        Next::Reply(reply) => reply,
        Next::Wait(_) => Seq::empty(),
    }
}

/// Whether a frame holds the command `word`.
pub open spec fn is_named(frame: Frame, word: &str) -> bool {
    command_word(frame) matches Some(name) && is_word(name, word)
}

/// What handling a frame gives.
///
/// While a transaction is open, every command but MULTI, EXEC and DISCARD
/// joins its queue. EXEC runs the queue as one piece.
pub open spec fn handle(session: Session, state: State, frame: Frame, now: u128) -> Turn {
    if is_named(frame, "multi") {
        if session.staging {
            settled(session, refuse(state, "ERR MULTI calls can not be nested"))
        } else {
            Turn {
                session: Session { staging: true, ..session },
                state,
                next: Next::Reply(ok_wire()),
            }
        }
    } else if is_named(frame, "discard") {
        if session.staging {
            Turn {
                session: Session { staging: false, staged: Seq::empty(), ..session },
                state,
                next: Next::Reply(ok_wire()),
            }
        } else {
            settled(session, refuse(state, "ERR DISCARD without MULTI"))
        }
    } else if is_named(frame, "exec") {
        if session.staging {
            let (s, t, replies) = run_all(
                Session { staging: false, staged: Seq::empty(), ..session },
                state,
                session.staged,
                now,
            );
            Turn { session: s, state: t, next: Next::Reply(array_wire(replies)) }
        } else {
            settled(session, refuse(state, "ERR EXEC without MULTI"))
        }
    } else if session.staging {
        Turn {
            session: Session { staged: session.staged.push(frame), ..session },
            state,
            next: Next::Reply(simple_string_wire(ascii("QUEUED"))),
        }
    } else {
        run_one(session, state, frame, now, true)
    }
}

/// The commands of a transaction run one after the other with nothing in
/// between: each runs on the connection and on the shared state that the
/// one before it left, in the same call.
pub proof fn law_transaction_runs_as_one_piece(
    session: Session,
    state: State,
    frames: Seq<Frame>,
    last: Frame,
    now: u128,
)
    ensures
        ({
            let (s, t, replies) = run_all(session, state, frames, now);
            let turn = run_one(s, t, last, now, false);
            run_all(session, state, frames.push(last), now) == (
                turn.session,
                turn.state,
                replies.push(reply_of(turn.next)),
            )
        }),
{
    assert(frames.push(last).drop_last() =~= frames);
}

/// A command leaves the pending writes as they are, or puts its own frame
/// behind them: the writes stay in the order in which the leader carried
/// them out.
#[verifier::rlimit(40)]
pub proof fn law_writes_pend_in_order(
    session: Session,
    state: State,
    frame: Frame,
    now: u128,
    may_wait: bool,
)
    ensures
        ({
            let after = run_one(session, state, frame, now, may_wait).state.pending;
            after == state.pending || after == state.pending.push(wire(frame))
        }),
{
    reveal(dispatch);
}

/// A command that may not wait ends at once.
#[verifier::rlimit(40)]
pub proof fn lemma_no_wait(session: Session, state: State, frame: Frame, now: u128)
    ensures
        run_one(session, state, frame, now, false).next is Reply,
{
    reveal(dispatch);
}

impl Client {
    /// Runs one command outside a transaction.
    pub fn run_one(
        &mut self,
        instance: &mut Instance,
        cmd: &RespType,
        now: u128,
        may_wait: bool,
    ) -> (step: Step)
        requires
            old(self).wf(),
            old(instance).wf(),
        ensures
            final(self).wf(),
            final(instance).wf(),
            took(
                final(self)@,
                final(instance)@,
                step,
                run_one(old(self)@, old(instance)@, cmd@, now, may_wait),
            ),
    {
        match extract_args(cmd) {
            None => Step::Reply(
                create_refusal("ERR Protocol error: expected an array of bulk strings"),
            ),
            Some(args) => {
                let leader = instance.is_master;
                let step = self.dispatch(instance, &args, now, may_wait);
                let hand_on = leader && names_write(args[0].as_slice()) && match &step {
                    Step::Reply(reply) => !(reply.len() > 0 && reply[0] == 45),
                    Step::Wait(_) => false,
                };
                if hand_on {
                    let ghost pending = instance@.pending;
                    instance.write_commands.push(cmd.encode());
                    assert(instance@.pending =~= pending.push(wire(cmd@)));
                }
                step
            },
        }
    }

    /// Handles one frame that the connection has received, at time `now`.
    #[verifier::rlimit(40)]
    pub fn handle_command(&mut self, instance: &mut Instance, cmd: RespType, now: u128) -> (step:
        Step)
        requires
            old(self).wf(),
            old(instance).wf(),
        ensures
            final(self).wf(),
            final(instance).wf(),
            took(
                final(self)@,
                final(instance)@,
                step,
                handle(old(self)@, old(instance)@, cmd@, now),
            ),
    {
        let (multi, discard, exec) = match command_name(&cmd) {
            Some(word) => (
                matches_word(word.as_slice(), "multi"),
                matches_word(word.as_slice(), "discard"),
                matches_word(word.as_slice(), "exec"),
            ),
            None => (false, false, false),
        };
        if multi {
            if self.staging_commands {
                Step::Reply(create_refusal("ERR MULTI calls can not be nested"))
            } else {
                self.staging_commands = true;
                Step::Reply(create_ok_resp())
            }
        } else if discard {
            if self.staging_commands {
                self.staging_commands = false;
                self.staged_commands = Vec::new();
                assert(self@.staged =~= Seq::<Frame>::empty());
                Step::Reply(create_ok_resp())
            } else {
                Step::Reply(create_refusal("ERR DISCARD without MULTI"))
            }
        } else if exec {
            if self.staging_commands {
                Step::Reply(self.run_staged(instance, now))
            } else {
                Step::Reply(create_refusal("ERR EXEC without MULTI"))
            }
        } else if self.staging_commands {
            let ghost staged = self@.staged;
            self.staged_commands.push(cmd);
            assert(self@.staged =~= staged.push(cmd@));
            Step::Reply(create_simple_string_resp(bytes_of("QUEUED")))
        } else {
            self.run_one(instance, &cmd, now, true)
        }
    }

    /// Closes the transaction and runs its commands as one piece.
    fn run_staged(&mut self, instance: &mut Instance, now: u128) -> (reply: Vec<u8>)
        requires
            old(self).wf(),
            old(instance).wf(),
        ensures
            final(self).wf(),
            final(instance).wf(),
            ({
                let (s, t, replies) = run_all(
                    Session { staging: false, staged: Seq::empty(), ..old(self)@ },
                    old(instance)@,
                    old(self)@.staged,
                    now,
                );
                final(self)@ == s && final(instance)@ == t && reply@ == array_wire(replies)
            }),
    {
        let mut staged: Vec<RespType> = Vec::new();
        std::mem::swap(&mut staged, &mut self.staged_commands);
        self.staging_commands = false;
        let ghost start = self@;
        let ghost before = instance@;
        let ghost frames = frames_of(staged@);
        assert(self@.staged =~= Seq::<Frame>::empty());
        assert(frames == old(self)@.staged);
        let mut replies: Vec<Vec<u8>> = Vec::new();
        let mut i: usize = 0;
        assert(frames.subrange(0, 0) =~= Seq::<Frame>::empty());
        while i < staged.len()
            invariant
                i <= staged.len(),
                self.wf(),
                instance.wf(),
                frames == frames_of(staged@),
                ({
                    let (s, t, done) = run_all(start, before, frames.subrange(0, i as int), now);
                    self@ == s && instance@ == t && views(replies@) =~= done
                }),
            decreases staged.len() - i,
        {
            proof {
                let next = frames.subrange(0, i + 1);
                assert(next.drop_last() =~= frames.subrange(0, i as int));
                assert(next.last() == staged[i as int]@);
                lemma_no_wait(self@, instance@, staged[i as int]@, now);
            }
            let ghost done = views(replies@);
            match self.run_one(instance, &staged[i], now, false) {
                Step::Reply(reply) => {
                    replies.push(reply);
                },
                Step::Wait(_) => {
                    replies.push(Vec::new());
                },
            }
            assert(views(replies@) =~= done.push(replies@[replies.len() - 1]@));
            i = i + 1;
        }
        assert(frames.subrange(0, staged.len() as int) =~= frames);
        create_array_resp(replies)
    }
}

} // verus!
