//! From the arguments of a command to what the command does.

use super::client::{Blocked, Client, Next, Pending, Session, Step, Value};
use super::instance::{Instance, State};
use super::store::{live, Store, Table};
use super::stream_id::StreamId;
use crate::commands::blpop::{blpop_outcome, BlpopCommand};
use crate::commands::echo::{echo_outcome, EchoCommand};
use crate::commands::get::{get_outcome, GetCommand};
use crate::commands::incr::{incr_outcome, not_an_integer_wire, IncrCommand};
use crate::commands::info::{info_outcome, InfoCommand};
use crate::commands::keys::{keys_outcome, KeysCommand};
use crate::commands::llen::{llen_outcome, LlenCommand};
use crate::commands::lpop::{lpop_outcome, LpopCommand};
use crate::commands::lpush::{lpush_outcome, LpushCommand};
use crate::commands::lrange::{lrange_outcome, LrangeCommand};
use crate::commands::ping::{ping_outcome, PingCommand};
use crate::commands::psync::{psync_outcome, PsyncCommand};
use crate::commands::publish::{publish_outcome, PublishCommand};
use crate::commands::replconf::{replconf_outcome, ReplConfCommand};
use crate::commands::rpush::{rpush_outcome, RpushCommand};
use crate::commands::set::{set_outcome, SetCommand};
use crate::commands::subscribe::{subscribe_outcome, SubscribeCommand};
use crate::commands::type_command::{type_outcome, TypeCommand};
use crate::commands::unsubscribe::{unsubscribe_outcome, UnsubscribeCommand};
use crate::commands::wait::{wait_outcome, WaitCommand};
use crate::commands::xadd::{fields_of, xadd_outcome, EntryId, XaddCommand};
use crate::commands::xrange::{xrange_outcome, XrangeCommand};
use crate::commands::xread::{cursors_of, xread_outcome, StreamCursor, XreadCommand};
use crate::commands::{
    add_time, ascii, bytes_of, find_bytes, is_word, lemma_ids_stay_distinct, matches_word,
    reply_bytes, time_after, with_id, without, Deadline, Outcome, RedisCommand,
};
use crate::redis::client::KeyVal;
use crate::resp::decimal::{
    i64_value, millis_within, parse_i64, parse_millis, parse_unsigned, unsigned_within,
};
use crate::resp::types::{Frame, RespType};
use crate::resp::{create_basic_err_resp, error_wire, views};
use vstd::prelude::*;

verus! {

/// The arguments of a command: the strings of an array that holds
/// nothing but strings, and at least one.
pub open spec fn command_args(frame: Frame) -> Option<Seq<Seq<u8>>> {
    match frame {
        Frame::Array(items) => if items.len() > 0 && forall|i: int|
            0 <= i < items.len() ==> #[trigger] items[i] is String {
            Some(Seq::new(items.len(), |i: int| items[i]->String_0))
        } else {
            None
        },
        _ => None,
    }
}

/// Copies the arguments of a command out of its frame.
#[verifier::loop_isolation(false)]
pub fn extract_args(cmd: &RespType) -> (r: Option<Vec<Vec<u8>>>)
    ensures
        match command_args(cmd@) {
            Some(args) => r matches Some(found) && views(found@) == args && args.len() > 0,
            None => r is None,
        },
{
    match cmd {
        RespType::Array(items) => {
            proof {
                crate::resp::types::lemma_array_view(*items);
            }
            if items.len() == 0 {
                return None;
            }
            let mut args: Vec<Vec<u8>> = Vec::new();
            let mut i: usize = 0;
            while i < items.len()
                invariant
                    i <= items.len(),
                    args.len() == i,
                    forall|j: int| 0 <= j < i ==> (#[trigger] items[j])@ is String,
                    forall|j: int| 0 <= j < i ==> (#[trigger] args[j])@ == items[j]@->String_0,
                decreases items.len() - i,
            {
                match &items[i] {
                    RespType::String(s) => {
                        args.push(s.clone());
                    },
                    _ => {
                        assert(!(crate::resp::types::frames_of(items@)[i as int] is String));
                        return None;
                    },
                }
                i = i + 1;
            }
            assert(views(args@) =~= command_args(cmd@)->0);
            Some(args)
        },
        _ => None,
    }
}

/// The word that names the command of a frame.
pub open spec fn command_word(frame: Frame) -> Option<Seq<u8>> {
    match command_args(frame) {
        Some(args) => Some(args[0]),
        None => None,
    }
}

/// The word that names the command of a frame.
#[verifier::loop_isolation(false)]
pub fn command_name(cmd: &RespType) -> (r: Option<&Vec<u8>>)
    ensures
        match command_word(cmd@) {
            Some(word) => r matches Some(name) && name@ == word,
            None => r is None,
        },
{
    match cmd {
        RespType::Array(items) => {
            proof {
                crate::resp::types::lemma_array_view(*items);
            }
            if items.len() == 0 {
                return None;
            }
            let mut i: usize = 0;
            while i < items.len()
                invariant
                    i <= items.len(),
                    forall|j: int| 0 <= j < i ==> (#[trigger] items[j])@ is String,
                decreases items.len() - i,
            {
                match &items[i] {
                    RespType::String(_) => {},
                    _ => {
                        assert(!(crate::resp::types::frames_of(items@)[i as int] is String));
                        return None;
                    },
                }
                i = i + 1;
            }
            match &items[0] {
                RespType::String(name) => Some(name),
                _ => None,
            }
        },
        _ => None,
    }
}

/// The outcome of a command that is refused with an error.
pub open spec fn refuse(state: State, message: &str) -> Outcome {
    Outcome { state, reply: Some(error_wire(ascii(message))) }
}

/// Encodes the error with which a command is refused.
pub fn create_refusal(message: &str) -> (out: Vec<u8>)
    ensures
        out@ == error_wire(ascii(message)),
{
    create_basic_err_resp(bytes_of(message))
}

/// Whether running a command changed the shared state and replied as
/// `outcome` says.
pub open spec fn ran(after: State, reply: Option<Vec<u8>>, outcome: Outcome) -> bool {
    after == outcome.state && reply_bytes(reply) == outcome.reply
}

/// ECHO `message`
pub open spec fn echo_turn(state: State, args: Seq<Seq<u8>>) -> Outcome {
    if args.len() == 2 {
        echo_outcome(state, args[1])
    } else {
        refuse(state, "ERR wrong number of arguments")
    }
}

fn run_echo(instance: &mut Instance, args: &Vec<Vec<u8>>, now: u128) -> (reply: Option<Vec<u8>>)
    requires
        old(instance).wf(),
    ensures
        final(instance).wf(),
        ran(final(instance)@, reply, echo_turn(old(instance)@, views(args@))),
{
    if args.len() != 2 {
        return Some(create_refusal("ERR wrong number of arguments"));
    }
    EchoCommand::new(args[1].clone()).execute(instance, now)
}

/// GET `key`
pub open spec fn get_turn(state: State, args: Seq<Seq<u8>>, now: u128) -> Outcome {
    if args.len() == 2 {
        get_outcome(state, args[1], now)
    } else {
        refuse(state, "ERR wrong number of arguments")
    }
}

fn run_get(instance: &mut Instance, args: &Vec<Vec<u8>>, now: u128) -> (reply: Option<Vec<u8>>)
    requires
        old(instance).wf(),
    ensures
        final(instance).wf(),
        ran(final(instance)@, reply, get_turn(old(instance)@, views(args@), now)),
{
    if args.len() != 2 {
        return Some(create_refusal("ERR wrong number of arguments"));
    }
    GetCommand::new(args[1].clone()).execute(instance, now)
}

/// SET `key` `value` [PX `milliseconds`]
pub open spec fn set_turn(state: State, args: Seq<Seq<u8>>, now: u128) -> Outcome {
    if args.len() == 3 {
        set_outcome(state, args[1], args[2], None, now)
    } else if args.len() == 5 && is_word(args[3], "px") {
        match unsigned_within(args[4], u128::MAX as nat) {
            Some(ms) => set_outcome(state, args[1], args[2], Some(ms as u128), now),
            None => Outcome { state, reply: Some(not_an_integer_wire()) },
        }
    } else if args.len() < 3 {
        refuse(state, "ERR wrong number of arguments")
    } else {
        refuse(state, "ERR syntax error")
    }
}

fn run_set(instance: &mut Instance, args: &Vec<Vec<u8>>, now: u128) -> (reply: Option<Vec<u8>>)
    requires
        old(instance).wf(),
    ensures
        final(instance).wf(),
        ran(final(instance)@, reply, set_turn(old(instance)@, views(args@), now)),
{
    if args.len() == 3 {
        SetCommand::new(args[1].clone(), args[2].clone(), None).execute(instance, now)
    } else if args.len() == 5 && matches_word(args[3].as_slice(), "px") {
        match parse_unsigned(args[4].as_slice(), u128::MAX) {
            Some(ms) => SetCommand::new(args[1].clone(), args[2].clone(), Some(ms)).execute(
                instance,
                now,
            ),
            None => Some(create_refusal("ERR value is not an integer or out of range")),
        }
    } else if args.len() < 3 {
        Some(create_refusal("ERR wrong number of arguments"))
    } else {
        Some(create_refusal("ERR syntax error"))
    }
}

/// INCR `key`
pub open spec fn incr_turn(state: State, args: Seq<Seq<u8>>, now: u128) -> Outcome {
    if args.len() == 2 {
        incr_outcome(state, args[1], now)
    } else {
        refuse(state, "ERR wrong number of arguments")
    }
}

fn run_incr(instance: &mut Instance, args: &Vec<Vec<u8>>, now: u128) -> (reply: Option<Vec<u8>>)
    requires
        old(instance).wf(),
    ensures
        final(instance).wf(),
        ran(final(instance)@, reply, incr_turn(old(instance)@, views(args@), now)),
{
    if args.len() != 2 {
        return Some(create_refusal("ERR wrong number of arguments"));
    }
    IncrCommand::new(args[1].clone()).execute(instance, now)
}

/// TYPE `key`
pub open spec fn type_turn(state: State, args: Seq<Seq<u8>>, now: u128) -> Outcome {
    if args.len() == 2 {
        type_outcome(state, args[1], now)
    } else {
        refuse(state, "ERR wrong number of arguments")
    }
}

fn run_type(instance: &mut Instance, args: &Vec<Vec<u8>>, now: u128) -> (reply: Option<Vec<u8>>)
    requires
        old(instance).wf(),
    ensures
        final(instance).wf(),
        ran(final(instance)@, reply, type_turn(old(instance)@, views(args@), now)),
{
    if args.len() != 2 {
        return Some(create_refusal("ERR wrong number of arguments"));
    }
    TypeCommand::new(args[1].clone()).execute(instance, now)
}

/// KEYS `pattern`
pub open spec fn keys_turn(state: State, args: Seq<Seq<u8>>, now: u128) -> Outcome {
    if args.len() == 2 {
        keys_outcome(state, now)
    } else {
        refuse(state, "ERR wrong number of arguments")
    }
}

fn run_keys(instance: &mut Instance, args: &Vec<Vec<u8>>, now: u128) -> (reply: Option<Vec<u8>>)
    requires
        old(instance).wf(),
    ensures
        final(instance).wf(),
        ran(final(instance)@, reply, keys_turn(old(instance)@, views(args@), now)),
{
    if args.len() != 2 {
        return Some(create_refusal("ERR wrong number of arguments"));
    }
    KeysCommand::new(args[1].clone()).execute(instance, now)
}

/// Copies `args[from..]`.
fn copy_tail(args: &Vec<Vec<u8>>, from: usize) -> (out: Vec<Vec<u8>>)
    requires
        from <= args.len(),
    ensures
        views(out@) == views(args@).subrange(from as int, args.len() as int),
{
    let mut out: Vec<Vec<u8>> = Vec::new();
    let mut i: usize = from;
    while i < args.len()
        invariant
            from <= i <= args.len(),
            out.len() == i - from,
            forall|j: int| 0 <= j < out.len() ==> (#[trigger] out[j])@ == args[from + j]@,
        decreases args.len() - i,
    {
        out.push(args[i].clone());
        i = i + 1;
    }
    assert(views(out@) =~= views(args@).subrange(from as int, args.len() as int));
    out
}

/// RPUSH `key` `value`...
pub open spec fn rpush_turn(state: State, args: Seq<Seq<u8>>, now: u128) -> Outcome {
    if args.len() >= 3 {
        rpush_outcome(state, args[1], args.subrange(2, args.len() as int), now)
    } else {
        refuse(state, "ERR wrong number of arguments")
    }
}

fn run_rpush(instance: &mut Instance, args: &Vec<Vec<u8>>, now: u128) -> (reply: Option<Vec<u8>>)
    requires
        old(instance).wf(),
    ensures
        final(instance).wf(),
        ran(final(instance)@, reply, rpush_turn(old(instance)@, views(args@), now)),
{
    if args.len() < 3 {
        return Some(create_refusal("ERR wrong number of arguments"));
    }
    RpushCommand::new(args[1].clone(), copy_tail(args, 2)).execute(instance, now)
}

/// LPUSH `key` `value`...
pub open spec fn lpush_turn(state: State, args: Seq<Seq<u8>>, now: u128) -> Outcome {
    if args.len() >= 3 {
        lpush_outcome(state, args[1], args.subrange(2, args.len() as int), now)
    } else {
        refuse(state, "ERR wrong number of arguments")
    }
}

fn run_lpush(instance: &mut Instance, args: &Vec<Vec<u8>>, now: u128) -> (reply: Option<Vec<u8>>)
    requires
        old(instance).wf(),
    ensures
        final(instance).wf(),
        ran(final(instance)@, reply, lpush_turn(old(instance)@, views(args@), now)),
{
    if args.len() < 3 {
        return Some(create_refusal("ERR wrong number of arguments"));
    }
    LpushCommand::new(args[1].clone(), copy_tail(args, 2)).execute(instance, now)
}

/// LLEN `key`
pub open spec fn llen_turn(state: State, args: Seq<Seq<u8>>, now: u128) -> Outcome {
    if args.len() == 2 {
        llen_outcome(state, args[1], now)
    } else {
        refuse(state, "ERR wrong number of arguments")
    }
}

fn run_llen(instance: &mut Instance, args: &Vec<Vec<u8>>, now: u128) -> (reply: Option<Vec<u8>>)
    requires
        old(instance).wf(),
    ensures
        final(instance).wf(),
        ran(final(instance)@, reply, llen_turn(old(instance)@, views(args@), now)),
{
    if args.len() != 2 {
        return Some(create_refusal("ERR wrong number of arguments"));
    }
    LlenCommand::new(args[1].clone()).execute(instance, now)
}

/// LPOP `key` [`count`]
pub open spec fn lpop_turn(state: State, args: Seq<Seq<u8>>, now: u128) -> Outcome {
    if args.len() == 2 {
        lpop_outcome(state, args[1], None, now)
    } else if args.len() == 3 {
        match unsigned_within(args[2], usize::MAX as nat) {
            Some(count) => lpop_outcome(state, args[1], Some(count as usize), now),
            None => Outcome { state, reply: Some(not_an_integer_wire()) },
        }
    } else {
        refuse(state, "ERR wrong number of arguments")
    }
}

fn run_lpop(instance: &mut Instance, args: &Vec<Vec<u8>>, now: u128) -> (reply: Option<Vec<u8>>)
    requires
        old(instance).wf(),
    ensures
        final(instance).wf(),
        ran(final(instance)@, reply, lpop_turn(old(instance)@, views(args@), now)),
{
    if args.len() == 2 {
        LpopCommand::new(args[1].clone(), None).execute(instance, now)
    } else if args.len() == 3 {
        match parse_unsigned(args[2].as_slice(), usize::MAX as u128) {
            Some(count) => LpopCommand::new(args[1].clone(), Some(count as usize)).execute(
                instance,
                now,
            ),
            None => Some(create_refusal("ERR value is not an integer or out of range")),
        }
    } else {
        Some(create_refusal("ERR wrong number of arguments"))
    }
}

/// LRANGE `key` `start` `end`
pub open spec fn lrange_turn(state: State, args: Seq<Seq<u8>>, now: u128) -> Outcome {
    if args.len() == 4 {
        match (num_at(args, 2), num_at(args, 3)) {
            (Some(start), Some(end)) => lrange_outcome(state, args[1], start, end, now),
            _ => Outcome { state, reply: Some(not_an_integer_wire()) },
        }
    } else {
        refuse(state, "ERR wrong number of arguments")
    }
}

/// The integer that the argument at position `at` denotes.
pub open spec fn num_at(args: Seq<Seq<u8>>, at: int) -> Option<i64> {
    if 0 <= at < args.len() {
        i64_value(args[at])
    } else {
        None
    }
}

impl Client {
    /// Reads the argument at position `at` as a 64-bit signed integer.
    /// There is none where the arguments end before it or where it is no
    /// such numeral.
    pub fn extract_num(args: &Vec<Vec<u8>>, at: usize) -> (r: Option<i64>)
        ensures
            r == num_at(views(args@), at as int),
    {
        if at < args.len() {
            parse_i64(args[at].as_slice())
        } else {
            None
        }
    }
}

fn run_lrange(instance: &mut Instance, args: &Vec<Vec<u8>>, now: u128) -> (reply: Option<Vec<u8>>)
    requires
        old(instance).wf(),
    ensures
        final(instance).wf(),
        ran(
            final(instance)@,
            reply,
            lrange_turn(old(instance)@, views(args@), now),
        ),
{
    if args.len() != 4 {
        return Some(create_refusal("ERR wrong number of arguments"));
    }
    match (Client::extract_num(args, 2), Client::extract_num(args, 3)) {
        (Some(start), Some(end)) => LrangeCommand::new(args[1].clone(), start, end).execute(
            instance,
            now,
        ),
        _ => Some(create_refusal("ERR value is not an integer or out of range")),
    }
}

/// The fields that a run of names and values stands for.
pub open spec fn pairs_of(items: Seq<Seq<u8>>) -> Seq<(Seq<u8>, Seq<u8>)> {
    Seq::new(items.len() / 2, |i: int| (items[2 * i], items[2 * i + 1]))
}

/// Copies the fields in `args[from..]`.
fn copy_pairs(args: &Vec<Vec<u8>>, from: usize) -> (out: Vec<KeyVal>)
    requires
        from <= args.len(),
        (args.len() - from) % 2 == 0,
    ensures
        fields_of(out@) == pairs_of(views(args@).subrange(from as int, args.len() as int)),
{
    let mut out: Vec<KeyVal> = Vec::new();
    let mut i: usize = from;
    while i < args.len()
        invariant
            from <= i <= args.len(),
            (i - from) % 2 == 0,
            (args.len() - from) % 2 == 0,
            out.len() == (i - from) / 2,
            forall|j: int|
                0 <= j < out.len() ==> (#[trigger] out[j])@ == (
                    args[from + 2 * j]@,
                    args[from + 2 * j + 1]@,
                ),
        decreases args.len() - i,
    {
        out.push(KeyVal { key: args[i].clone(), val: args[i + 1].clone() });
        i = i + 2;
    }
    assert(fields_of(out@) =~= pairs_of(views(args@).subrange(from as int, args.len() as int)));
    out
}

/// XADD `key` `id` `field` `value` [`field` `value`]...
pub open spec fn xadd_turn(state: State, args: Seq<Seq<u8>>, now: u128) -> Outcome {
    if args.len() >= 5 && (args.len() - 3) % 2 == 0 {
        match EntryId::from_text(args[2]) {
            Some(id) => xadd_outcome(
                state,
                args[1],
                id,
                pairs_of(args.subrange(3, args.len() as int)),
                now,
            ),
            None => refuse(state, "ERR Invalid stream ID specified as stream command argument"),
        }
    } else {
        refuse(state, "ERR wrong number of arguments")
    }
}

fn run_xadd(instance: &mut Instance, args: &Vec<Vec<u8>>, now: u128) -> (reply: Option<Vec<u8>>)
    requires
        old(instance).wf(),
    ensures
        final(instance).wf(),
        ran(final(instance)@, reply, xadd_turn(old(instance)@, views(args@), now)),
{
    if args.len() < 5 || (args.len() - 3) % 2 != 0 {
        return Some(create_refusal("ERR wrong number of arguments"));
    }
    match EntryId::parse(args[2].as_slice()) {
        Some(id) => XaddCommand::new(args[1].clone(), id, copy_pairs(args, 3)).execute(
            instance,
            now,
        ),
        None => Some(
            create_refusal("ERR Invalid stream ID specified as stream command argument"),
        ),
    }
}

/// A bound of XRANGE: the sign that leaves the range open on that side,
/// or an id.
pub open spec fn range_bound(text: Seq<u8>, open: u8) -> Option<Option<StreamId>> {
    if text == seq![open] {
        Some(None)
    } else {
        match StreamId::from_text(text) {
            Some(id) => Some(Some(id)),
            None => None,
        }
    }
}

fn parse_bound(text: &[u8], open: u8) -> (r: Option<Option<StreamId>>)
    ensures
        r == range_bound(text@, open),
{
    if text.len() == 1 && text[0] == open {
        assert(text@ =~= seq![open]);
        Some(None)
    } else {
        match StreamId::parse(text) {
            Some(id) => Some(Some(id)),
            None => None,
        }
    }
}

/// XRANGE `key` `start` `end`
pub open spec fn xrange_turn(state: State, args: Seq<Seq<u8>>, now: u128) -> Outcome {
    if args.len() == 4 {
        match (range_bound(args[2], 45), range_bound(args[3], 43)) {
            (Some(start), Some(end)) => xrange_outcome(state, args[1], start, end, now),
            _ => refuse(state, "ERR Invalid stream ID specified as stream command argument"),
        }
    } else {
        refuse(state, "ERR wrong number of arguments")
    }
}

fn run_xrange(instance: &mut Instance, args: &Vec<Vec<u8>>, now: u128) -> (reply: Option<Vec<u8>>)
    requires
        old(instance).wf(),
    ensures
        final(instance).wf(),
        ran(
            final(instance)@,
            reply,
            xrange_turn(old(instance)@, views(args@), now),
        ),
{
    if args.len() != 4 {
        return Some(create_refusal("ERR wrong number of arguments"));
    }
    match (parse_bound(args[2].as_slice(), 45), parse_bound(args[3].as_slice(), 43)) {
        (Some(start), Some(end)) => XrangeCommand::new(args[1].clone(), start, end).execute(
            instance,
            now,
        ),
        _ => Some(create_refusal("ERR Invalid stream ID specified as stream command argument")),
    }
}

/// REPLCONF `keyword` [`argument`]...
pub open spec fn replconf_turn(state: State, args: Seq<Seq<u8>>, from_replica: bool) -> Outcome {
    if args.len() >= 2 {
        replconf_outcome(state, args[1], from_replica)
    } else {
        refuse(state, "ERR wrong number of arguments")
    }
}

fn run_replconf(
    instance: &mut Instance,
    args: &Vec<Vec<u8>>,
    from_replica: bool,
    now: u128,
) -> (reply: Option<Vec<u8>>)
    requires
        old(instance).wf(),
    ensures
        final(instance).wf(),
        ran(final(instance)@, reply, replconf_turn(old(instance)@, views(args@), from_replica)),
{
    if args.len() < 2 {
        return Some(create_refusal("ERR wrong number of arguments"));
    }
    ReplConfCommand::new(args[1].clone(), from_replica).execute(instance, now)
}

/// PUBLISH `channel` `message`
pub open spec fn publish_turn(state: State, args: Seq<Seq<u8>>) -> Outcome {
    if args.len() == 3 {
        publish_outcome(state, args[1], args[2])
    } else {
        refuse(state, "ERR wrong number of arguments")
    }
}

fn run_publish(instance: &mut Instance, args: &Vec<Vec<u8>>, now: u128) -> (reply: Option<Vec<u8>>)
    requires
        old(instance).wf(),
    ensures
        final(instance).wf(),
        ran(final(instance)@, reply, publish_turn(old(instance)@, views(args@))),
{
    if args.len() != 3 {
        return Some(create_refusal("ERR wrong number of arguments"));
    }
    PublishCommand::new(args[1].clone(), args[2].clone()).execute(instance, now)
}

/// What handling a frame gives: the connection and the shared state
/// after it, and what the connection does next.
pub struct Turn {
    pub session: Session,
    pub state: State,
    pub next: Next,
}

/// The turn of a command that ends at once.
pub open spec fn settled(session: Session, outcome: Outcome) -> Turn {
    Turn {
        session,
        state: outcome.state,
        next: Next::Reply(
            match outcome.reply {
                Some(reply) => reply,
                None => Seq::empty(),
            },
        ),
    }
}

/// The turn of a command that may wait: it ends with the reply of its
/// first attempt, or it is kept to be run again.
pub open spec fn waiting(session: Session, outcome: Outcome, pending: Pending) -> Turn {
    Turn {
        session,
        state: outcome.state,
        next: match outcome.reply {
            Some(reply) => Next::Reply(reply),
            None => Next::Wait(pending),
        },
    }
}

/// Whether a connection, the shared state and the step taken are as a
/// turn says.
pub open spec fn took(client: Session, instance: State, step: Step, turn: Turn) -> bool {
    client == turn.session && instance == turn.state && step@ == turn.next
}

/// A number of channels as an integer of a reply.
pub open spec fn count_of(n: nat) -> i64 {
    if n <= i64::MAX {
        n as i64
    } else {
        i64::MAX
    }
}

fn count_as_i64(n: usize) -> (c: i64)
    ensures
        c == count_of(n as nat),
{
    if n as u128 <= 0x7fff_ffff_ffff_ffffu128 {
        n as i64
    } else {
        i64::MAX
    }
}

/// SUBSCRIBE `channel`
pub open spec fn subscribe_turn(session: Session, state: State, args: Seq<Seq<u8>>) -> Turn {
    if args.len() == 2 {
        let channels = with_id(session.channels, args[1]);
        settled(
            Session { channels, ..session },
            subscribe_outcome(state, session.id, args[1], count_of(channels.len())),
        )
    } else {
        settled(session, refuse(state, "ERR wrong number of arguments"))
    }
}

/// UNSUBSCRIBE `channel`
pub open spec fn unsubscribe_turn(session: Session, state: State, args: Seq<Seq<u8>>) -> Turn {
    if args.len() == 2 {
        let channels = without(session.channels, args[1]);
        settled(
            Session { channels, ..session },
            unsubscribe_outcome(state, session.id, args[1], count_of(channels.len())),
        )
    } else {
        settled(session, refuse(state, "ERR wrong number of arguments"))
    }
}

/// PSYNC: the connection becomes that of a follower.
pub open spec fn psync_turn(session: Session, state: State) -> Turn {
    settled(Session { replica: true, ..session }, psync_outcome(state, session.id))
}

/// Until when a command waits that was given `ms` milliseconds at time
/// `now`: for ever where it was given none. A command that may not wait
/// has a deadline that has passed.
pub open spec fn wait_deadline(ms: u128, now: u128, may_wait: bool) -> Deadline {
    if !may_wait {
        Deadline::Passed
    } else if ms == 0 {
        Deadline::Never
    } else {
        Deadline::At(time_after(now, ms))
    }
}

fn deadline_for(ms: u128, now: u128, may_wait: bool) -> (d: Deadline)
    ensures
        d == wait_deadline(ms, now, may_wait),
{
    if !may_wait {
        Deadline::Passed
    } else if ms == 0 {
        Deadline::Never
    } else {
        Deadline::At(add_time(now, ms))
    }
}

/// BLPOP `key` `seconds`
pub open spec fn blpop_turn(
    session: Session,
    state: State,
    args: Seq<Seq<u8>>,
    now: u128,
    may_wait: bool,
) -> Turn {
    if args.len() == 3 {
        match millis_within(args[2]) {
            Some(ms) => {
                let deadline = wait_deadline(ms, now, may_wait);
                waiting(
                    session,
                    blpop_outcome(state, args[1], session.id, deadline, now),
                    Pending::Blpop { key: args[1], id: session.id, deadline },
                )
            },
            None => settled(session, refuse(state, "ERR timeout is not a float or out of range")),
        }
    } else {
        settled(session, refuse(state, "ERR wrong number of arguments"))
    }
}

/// WAIT `followers` `milliseconds`
pub open spec fn wait_turn(
    session: Session,
    state: State,
    args: Seq<Seq<u8>>,
    now: u128,
    may_wait: bool,
) -> Turn {
    if args.len() == 3 {
        match (
            unsigned_within(args[1], usize::MAX as nat),
            unsigned_within(args[2], u128::MAX as nat),
        ) {
            (Some(count), Some(ms)) => {
                let deadline = if may_wait {
                    Deadline::At(time_after(now, ms as u128))
                } else {
                    Deadline::Passed
                };
                waiting(
                    session,
                    wait_outcome(state, count as usize, deadline, now),
                    Pending::Wait { count: count as usize, deadline },
                )
            },
            _ => settled(session, Outcome { state, reply: Some(not_an_integer_wire()) }),
        }
    } else {
        settled(session, refuse(state, "ERR wrong number of arguments"))
    }
}

/// The last id of the stream under `key`, or `0-0` where there is none.
pub open spec fn last_entry_id(table: Table, key: Seq<u8>, now: u128) -> StreamId {
    match live(table, key, now) {
        Some(Value::Stream { entries }) => if entries.len() > 0 {
            entries.last().id
        } else {
            StreamId::zero()
        },
        _ => StreamId::zero(),
    }
}

/// The id behind which XREAD reads a stream: the one given, or for `$`
/// the last id that the stream holds when the command arrives.
pub open spec fn cursor_start(table: Table, key: Seq<u8>, text: Seq<u8>, now: u128) -> Option<
    StreamId,
> {
    if text == seq![36u8] {
        Some(last_entry_id(table, key, now))
    } else {
        StreamId::from_text(text)
    }
}

/// The cursors of XREAD: the first half of `rest` names the streams, the
/// second half the ids, in the same order.
pub open spec fn xread_cursors(table: Table, rest: Seq<Seq<u8>>, now: u128) -> Option<
    Seq<(Seq<u8>, StreamId)>,
> {
    let n = rest.len() / 2;
    if forall|i: int|
        0 <= i < n ==> (#[trigger] cursor_start(table, rest[i], rest[n + i], now)) is Some {
        Some(Seq::new(n, |i: int| (rest[i], cursor_start(table, rest[i], rest[n + i], now)->0)))
    } else {
        None
    }
}

/// XREAD behind its options: STREAMS `key`... `id`...
pub open spec fn xread_streams(
    session: Session,
    state: State,
    args: Seq<Seq<u8>>,
    at: int,
    deadline: Deadline,
    now: u128,
) -> Turn {
    if args.len() <= at || !is_word(args[at], "streams") {
        settled(session, refuse(state, "ERR syntax error"))
    } else {
        let rest = args.subrange(at + 1, args.len() as int);
        if rest.len() == 0 || rest.len() % 2 != 0 {
            settled(session, refuse(state, "ERR Unbalanced XREAD list of streams"))
        } else {
            match xread_cursors(state.table, rest, now) {
                Some(cursors) => waiting(
                    session,
                    xread_outcome(state, cursors, deadline, now),
                    Pending::Xread { cursors, deadline },
                ),
                None => settled(
                    session,
                    refuse(state, "ERR Invalid stream ID specified as stream command argument"),
                ),
            }
        }
    }
}

/// XREAD [BLOCK `milliseconds`] STREAMS `key`... `id`...
pub open spec fn xread_turn(
    session: Session,
    state: State,
    args: Seq<Seq<u8>>,
    now: u128,
    may_wait: bool,
) -> Turn {
    if args.len() >= 2 && is_word(args[1], "block") {
        if args.len() < 3 {
            settled(session, refuse(state, "ERR wrong number of arguments"))
        } else {
            match unsigned_within(args[2], u128::MAX as nat) {
                Some(ms) => xread_streams(
                    session,
                    state,
                    args,
                    3,
                    wait_deadline(ms as u128, now, may_wait),
                    now,
                ),
                None => settled(session, Outcome { state, reply: Some(not_an_integer_wire()) }),
            }
        }
    } else {
        xread_streams(session, state, args, 1, Deadline::Passed, now)
    }
}

/// What a command does: the command is the one that the first argument
/// names, in whatever case.
#[verifier::opaque]
pub open spec fn dispatch(
    session: Session,
    state: State,
    args: Seq<Seq<u8>>,
    now: u128,
    may_wait: bool,
) -> Turn {
    let name = args[0];
    if is_word(name, "ping") {
        settled(session, ping_outcome(state, session.channels.len() > 0))
    } else if is_word(name, "echo") {
        settled(session, echo_turn(state, args))
    } else if is_word(name, "get") {
        settled(session, get_turn(state, args, now))
    } else if is_word(name, "set") {
        settled(session, set_turn(state, args, now))
    } else if is_word(name, "incr") {
        settled(session, incr_turn(state, args, now))
    } else if is_word(name, "type") {
        settled(session, type_turn(state, args, now))
    } else if is_word(name, "keys") {
        settled(session, keys_turn(state, args, now))
    } else if is_word(name, "rpush") {
        settled(session, rpush_turn(state, args, now))
    } else if is_word(name, "lpush") {
        settled(session, lpush_turn(state, args, now))
    } else if is_word(name, "llen") {
        settled(session, llen_turn(state, args, now))
    } else if is_word(name, "lpop") {
        settled(session, lpop_turn(state, args, now))
    } else if is_word(name, "lrange") {
        settled(session, lrange_turn(state, args, now))
    } else if is_word(name, "blpop") {
        blpop_turn(session, state, args, now, may_wait)
    } else if is_word(name, "xadd") {
        settled(session, xadd_turn(state, args, now))
    } else if is_word(name, "xrange") {
        settled(session, xrange_turn(state, args, now))
    } else if is_word(name, "xread") {
        xread_turn(session, state, args, now, may_wait)
    } else if is_word(name, "subscribe") {
        subscribe_turn(session, state, args)
    } else if is_word(name, "unsubscribe") {
        unsubscribe_turn(session, state, args)
    } else if is_word(name, "publish") {
        settled(session, publish_turn(state, args))
    } else if is_word(name, "info") {
        settled(session, info_outcome(state))
    } else if is_word(name, "replconf") {
        settled(session, replconf_turn(state, args, session.replica))
    } else if is_word(name, "psync") {
        psync_turn(session, state)
    } else if is_word(name, "wait") {
        wait_turn(session, state, args, now, may_wait)
    } else {
        settled(session, refuse(state, "ERR unknown command"))
    }
}

/// Makes a step of the reply of a command that ends at once.
fn reply_step(reply: Option<Vec<u8>>) -> (step: Step)
    ensures
        step@ == Next::Reply(
            match reply_bytes(reply) {
                Some(bytes) => bytes,
                None => Seq::empty(),
            },
        ),
{
    match reply {
        Some(bytes) => Step::Reply(bytes),
        None => Step::Reply(Vec::new()),
    }
}

impl Client {
    fn run_subscribe(&mut self, instance: &mut Instance, args: &Vec<Vec<u8>>, now: u128) -> (step:
        Step)
        requires
            old(self).wf(),
            old(instance).wf(),
        ensures
            final(self).wf(),
            final(instance).wf(),
            took(
                final(self)@,
                final(instance)@,
                step,
                subscribe_turn(old(self)@, old(instance)@, views(args@)),
            ),
    {
        if args.len() != 2 {
            return Step::Reply(create_refusal("ERR wrong number of arguments"));
        }
        proof {
            lemma_ids_stay_distinct(self@.channels, args[1]@);
        }
        if find_bytes(&self.subscribed_channels, args[1].as_slice()).is_none() {
            self.subscribed_channels.push(args[1].clone());
        }
        assert(self@.channels =~= with_id(old(self)@.channels, args[1]@));
        assert(self@.staged == old(self)@.staged);
        let count = count_as_i64(self.subscribed_channels.len());
        reply_step(
            SubscribeCommand::new(self.id.clone(), args[1].clone(), count).execute(instance, now),
        )
    }

    fn run_unsubscribe(&mut self, instance: &mut Instance, args: &Vec<Vec<u8>>, now: u128) -> (step:
        Step)
        requires
            old(self).wf(),
            old(instance).wf(),
        ensures
            final(self).wf(),
            final(instance).wf(),
            took(
                final(self)@,
                final(instance)@,
                step,
                unsubscribe_turn(old(self)@, old(instance)@, views(args@)),
            ),
    {
        if args.len() != 2 {
            return Step::Reply(create_refusal("ERR wrong number of arguments"));
        }
        proof {
            lemma_ids_stay_distinct(self@.channels, args[1]@);
        }
        match find_bytes(&self.subscribed_channels, args[1].as_slice()) {
            Some(at) => {
                proof {
                    assert(self@.channels[at as int] == args[1]@);
                    assert(self@.channels.index_of(args[1]@) == at);
                }
                self.subscribed_channels.remove(at);
            },
            None => {},
        }
        assert(self@.channels =~= without(old(self)@.channels, args[1]@));
        assert(self@.staged == old(self)@.staged);
        let count = count_as_i64(self.subscribed_channels.len());
        reply_step(
            UnsubscribeCommand::new(self.id.clone(), args[1].clone(), count).execute(
                instance,
                now,
            ),
        )
    }

    fn run_blpop(
        &self,
        instance: &mut Instance,
        args: &Vec<Vec<u8>>,
        now: u128,
        may_wait: bool,
    ) -> (step: Step)
        requires
            old(instance).wf(),
        ensures
            final(instance).wf(),
            took(
                self@,
                final(instance)@,
                step,
                blpop_turn(self@, old(instance)@, views(args@), now, may_wait),
            ),
    {
        if args.len() != 3 {
            return Step::Reply(create_refusal("ERR wrong number of arguments"));
        }
        match parse_millis(args[2].as_slice()) {
            Some(ms) => {
                let command = BlpopCommand::new(
                    args[1].clone(),
                    self.id.clone(),
                    deadline_for(ms, now, may_wait),
                );
                match command.execute(instance, now) {
                    Some(reply) => Step::Reply(reply),
                    None => Step::Wait(Blocked::Blpop(command)),
                }
            },
            None => Step::Reply(create_refusal("ERR timeout is not a float or out of range")),
        }
    }

    fn run_wait(
        &self,
        instance: &mut Instance,
        args: &Vec<Vec<u8>>,
        now: u128,
        may_wait: bool,
    ) -> (step: Step)
        requires
            old(instance).wf(),
        ensures
            final(instance).wf(),
            took(
                self@,
                final(instance)@,
                step,
                wait_turn(self@, old(instance)@, views(args@), now, may_wait),
            ),
    {
        if args.len() != 3 {
            return Step::Reply(create_refusal("ERR wrong number of arguments"));
        }
        match (
            parse_unsigned(args[1].as_slice(), usize::MAX as u128),
            parse_unsigned(args[2].as_slice(), u128::MAX),
        ) {
            (Some(count), Some(ms)) => {
                let deadline = if may_wait {
                    Deadline::At(add_time(now, ms))
                } else {
                    Deadline::Passed
                };
                let command = WaitCommand::new(count as usize, deadline);
                match command.execute(instance, now) {
                    Some(reply) => Step::Reply(reply),
                    None => Step::Wait(Blocked::Wait(command)),
                }
            },
            _ => Step::Reply(create_refusal("ERR value is not an integer or out of range")),
        }
    }
}

/// The last id of the stream under `key`, or `0-0` where there is none.
fn last_id_of(store: &Store, key: &[u8], now: u128) -> (id: StreamId)
    requires
        store.wf(),
    ensures
        id == last_entry_id(store@, key@, now),
{
    match store.live_position(key, now) {
        Some(i) => match &store.slots[i].val {
            super::client::CacheVal::Stream(s) => if s.stream.len() > 0 {
                s.stream[s.stream.len() - 1].id
            } else {
                StreamId { ms: 0, seq: 0 }
            },
            _ => StreamId { ms: 0, seq: 0 },
        },
        None => StreamId { ms: 0, seq: 0 },
    }
}

/// Reads the cursors of XREAD from `args[from..]`.
fn parse_cursors(store: &Store, args: &Vec<Vec<u8>>, from: usize, now: u128) -> (r: Option<
    Vec<StreamCursor>,
>)
    requires
        store.wf(),
        from <= args.len(),
        (args.len() - from) % 2 == 0,
    ensures
        match xread_cursors(store@, views(args@).subrange(from as int, args.len() as int), now) {
            Some(cursors) => r matches Some(found) && cursors_of(found@) == cursors,
            None => r is None,
        },
{
    let ghost rest = views(args@).subrange(from as int, args.len() as int);
    let n: usize = (args.len() - from) / 2;
    let mut cursors: Vec<StreamCursor> = Vec::new();
    let mut i: usize = 0;
    while i < n
        invariant
            i <= n,
            n == (args.len() - from) / 2,
            (args.len() - from) % 2 == 0,
            from <= args.len(),
            store.wf(),
            rest == views(args@).subrange(from as int, args.len() as int),
            cursors.len() == i,
            forall|j: int|
                0 <= j < i ==> (#[trigger] cursor_start(store@, rest[j], rest[n + j], now)) is Some,
            forall|j: int|
                0 <= j < i ==> (#[trigger] cursors[j]).key@ == rest[j] && cursors[j].after
                    == cursor_start(store@, rest[j], rest[n + j], now)->0,
        decreases n - i,
    {
        let key = &args[from + i];
        let text = &args[from + n + i];
        assert(rest[i as int] == key@);
        assert(rest[n + i] == text@);
        let after = if text.len() == 1 && text[0] == 36 {
            assert(text@ =~= seq![36u8]);
            last_id_of(store, key.as_slice(), now)
        } else {
            match StreamId::parse(text.as_slice()) {
                Some(id) => id,
                None => {
                    assert(cursor_start(store@, rest[i as int], rest[n + i], now) is None);
                    return None;
                },
            }
        };
        cursors.push(StreamCursor { key: key.clone(), after });
        i = i + 1;
    }
    assert(cursors_of(cursors@) =~= xread_cursors(store@, rest, now)->0);
    Some(cursors)
}

impl Client {
    fn run_xread_streams(
        &self,
        instance: &mut Instance,
        args: &Vec<Vec<u8>>,
        at: usize,
        deadline: Deadline,
        now: u128,
    ) -> (step: Step)
        requires
            old(instance).wf(),
        ensures
            final(instance).wf(),
            took(
                self@,
                final(instance)@,
                step,
                xread_streams(self@, old(instance)@, views(args@), at as int, deadline, now),
            ),
    {
        if args.len() <= at || !matches_word(args[at].as_slice(), "streams") {
            return Step::Reply(create_refusal("ERR syntax error"));
        }
        let count = args.len() - (at + 1);
        assert(views(args@).subrange(at + 1, args.len() as int).len() == count);
        if count == 0 || count % 2 != 0 {
            return Step::Reply(create_refusal("ERR Unbalanced XREAD list of streams"));
        }
        match parse_cursors(&instance.cache, args, at + 1, now) {
            Some(streams) => {
                let command = XreadCommand::new(streams, deadline);
                match command.execute(instance, now) {
                    Some(reply) => Step::Reply(reply),
                    None => Step::Wait(Blocked::Xread(command)),
                }
            },
            None => Step::Reply(
                create_refusal("ERR Invalid stream ID specified as stream command argument"),
            ),
        }
    }

    fn run_xread(
        &self,
        instance: &mut Instance,
        args: &Vec<Vec<u8>>,
        now: u128,
        may_wait: bool,
    ) -> (step: Step)
        requires
            old(instance).wf(),
            args.len() >= 1,
        ensures
            final(instance).wf(),
            took(
                self@,
                final(instance)@,
                step,
                xread_turn(self@, old(instance)@, views(args@), now, may_wait),
            ),
    {
        if args.len() >= 2 && matches_word(args[1].as_slice(), "block") {
            if args.len() < 3 {
                return Step::Reply(create_refusal("ERR wrong number of arguments"));
            }
            match parse_unsigned(args[2].as_slice(), u128::MAX) {
                Some(ms) => self.run_xread_streams(
                    instance,
                    args,
                    3,
                    deadline_for(ms, now, may_wait),
                    now,
                ),
                None => Step::Reply(create_refusal("ERR value is not an integer or out of range")),
            }
        } else {
            self.run_xread_streams(instance, args, 1, Deadline::Passed, now)
        }
    }

    /// Runs the command that `args` names.
    #[verifier::rlimit(40)]
    pub fn dispatch(
        &mut self,
        instance: &mut Instance,
        args: &Vec<Vec<u8>>,
        now: u128,
        may_wait: bool,
    ) -> (step: Step)
        requires
            old(self).wf(),
            old(instance).wf(),
            args.len() >= 1,
        ensures
            final(self).wf(),
            final(instance).wf(),
            took(
                final(self)@,
                final(instance)@,
                step,
                dispatch(old(self)@, old(instance)@, views(args@), now, may_wait),
            ),
    {
        reveal(dispatch);
        let name = args[0].as_slice();
        if matches_word(name, "ping") {
            reply_step(PingCommand::new(self.subscribed_channels.len() > 0).execute(instance, now))
        } else if matches_word(name, "echo") {
            reply_step(run_echo(instance, args, now))
        } else if matches_word(name, "get") {
            reply_step(run_get(instance, args, now))
        } else if matches_word(name, "set") {
            reply_step(run_set(instance, args, now))
        } else if matches_word(name, "incr") {
            reply_step(run_incr(instance, args, now))
        } else if matches_word(name, "type") {
            reply_step(run_type(instance, args, now))
        } else if matches_word(name, "keys") {
            reply_step(run_keys(instance, args, now))
        } else if matches_word(name, "rpush") {
            reply_step(run_rpush(instance, args, now))
        } else if matches_word(name, "lpush") {
            reply_step(run_lpush(instance, args, now))
        } else if matches_word(name, "llen") {
            reply_step(run_llen(instance, args, now))
        } else if matches_word(name, "lpop") {
            reply_step(run_lpop(instance, args, now))
        } else if matches_word(name, "lrange") {
            reply_step(run_lrange(instance, args, now))
        } else if matches_word(name, "blpop") {
            self.run_blpop(instance, args, now, may_wait)
        } else if matches_word(name, "xadd") {
            reply_step(run_xadd(instance, args, now))
        } else if matches_word(name, "xrange") {
            reply_step(run_xrange(instance, args, now))
        } else if matches_word(name, "xread") {
            self.run_xread(instance, args, now, may_wait)
        } else if matches_word(name, "subscribe") {
            self.run_subscribe(instance, args, now)
        } else if matches_word(name, "unsubscribe") {
            self.run_unsubscribe(instance, args, now)
        } else if matches_word(name, "publish") {
            reply_step(run_publish(instance, args, now))
        } else if matches_word(name, "info") {
            reply_step(InfoCommand::new().execute(instance, now))
        } else if matches_word(name, "replconf") {
            reply_step(run_replconf(instance, args, self.is_replica_connection, now))
        } else if matches_word(name, "psync") {
            self.is_replica_connection = true;
            reply_step(PsyncCommand::new(self.id.clone()).execute(instance, now))
        } else if matches_word(name, "wait") {
            self.run_wait(instance, args, now, may_wait)
        } else {
            Step::Reply(create_refusal("ERR unknown command"))
        }
    }
}

} // verus!
