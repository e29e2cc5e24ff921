//! The values that keys hold, and the state of one connection.

use super::stream_id::StreamId;
use crate::commands::blpop::{blpop_outcome, BlpopCommand};
use crate::commands::wait::{wait_outcome, WaitCommand};
use crate::commands::xread::{cursors_of, xread_outcome, XreadCommand};
use crate::commands::{reply_bytes, Deadline, Outcome, RedisCommand};
use crate::redis::instance::{Instance, State};
use crate::resp::types::{frames_of, Frame, RespType};
use crate::resp::views;
use vstd::prelude::*;

verus! {

/// What a key holds.
#[derive(Debug, Clone)]
pub enum CacheVal {
    String(StringCacheVal),
    List(ListCacheVal),
    Stream(StreamCacheVal),
}

/// A string with the time, in milliseconds since the epoch, from which it
/// counts as absent.
#[derive(Debug, Clone)]
pub struct StringCacheVal {
    pub val: Vec<u8>,
    pub expiry_time: Option<u128>,
}

/// A list with the queue of the connections that wait for an item.
#[derive(Debug, Clone)]
pub struct ListCacheVal {
    pub list: Vec<Vec<u8>>,
    pub block_queue: Vec<Vec<u8>>,
}

/// A stream: entries in the order of their ids.
#[derive(Debug, Clone)]
pub struct StreamCacheVal {
    pub stream: Vec<StreamItem>,
}

/// One field of a stream entry.
#[derive(Debug, Clone)]
pub struct KeyVal {
    pub key: Vec<u8>,
    pub val: Vec<u8>,
}

/// One entry of a stream.
#[derive(Debug, Clone)]
pub struct StreamItem {
    pub id: StreamId,
    pub key_vals: Vec<KeyVal>,
}

/// A stream entry as a mathematical value.
pub struct Entry {
    pub id: StreamId,
    pub fields: Seq<(Seq<u8>, Seq<u8>)>,
}

/// What a key holds, as a mathematical value.
pub enum Value {
    String { val: Seq<u8>, expiry: Option<u128> },
    List { items: Seq<Seq<u8>>, waiters: Seq<Seq<u8>> },
    Stream { entries: Seq<Entry> },
}

impl View for KeyVal {
    type V = (Seq<u8>, Seq<u8>);

    open spec fn view(&self) -> (Seq<u8>, Seq<u8>) {
        (self.key@, self.val@)
    }
}

impl View for StreamItem {
    type V = Entry;

    open spec fn view(&self) -> Entry {
        Entry {
            id: self.id,
            fields: Seq::new(self.key_vals.len() as nat, |i: int| self.key_vals[i]@),
        }
    }
}

/// The entries that a list of stream items stands for.
pub open spec fn entries_of(items: Seq<StreamItem>) -> Seq<Entry> {
    Seq::new(items.len(), |i: int| items[i]@)
}

impl View for CacheVal {
    type V = Value;

    open spec fn view(&self) -> Value {
        match self {
            CacheVal::String(s) => Value::String { val: s.val@, expiry: s.expiry_time },
            CacheVal::List(l) => Value::List {
                items: views(l.list@),
                waiters: views(l.block_queue@),
            },
            CacheVal::Stream(s) => Value::Stream { entries: entries_of(s.stream@) },
        }
    }
}

/// Whether the ids of a stream's entries increase strictly, the first of
/// them above `0-0`.
pub open spec fn ids_increase(entries: Seq<Entry>) -> bool {
    &&& forall|i: int| 0 <= i < entries.len() ==> StreamId::zero().lt(#[trigger] entries[i].id)
    &&& forall|i: int, j: int|
        0 <= i < j < entries.len() ==> (#[trigger] entries[i]).id.lt((#[trigger] entries[j]).id)
}

/// The invariant of a value: a list's wait queue names no connection
/// twice, and a stream's ids increase.
pub open spec fn value_wf(v: Value) -> bool {
    match v {
        Value::String { .. } => true,
        Value::List { items, waiters } => waiters.no_duplicates(),
        Value::Stream { entries } => ids_increase(entries),
    }
}

/// Whether a string counts as present at time `now`: it has no expiry,
/// or `now` is before it.
pub open spec fn unexpired(expiry: Option<u128>, now: u128) -> bool {
    match expiry {
        Some(at) => now < at,
        None => true,
    }
}

/// Between any two neighbouring entries of a stream the id increases.
pub proof fn law_stream_ids_increase(entries: Seq<Entry>, i: int)
    requires
        ids_increase(entries),
        0 <= i,
        i + 1 < entries.len(),
    ensures
        entries[i].id.lt(entries[i + 1].id),
{
}

/// The state of one connection.
#[derive(Debug)]
pub struct Client {
    /// The name under which the shared state knows the connection.
    pub id: Vec<u8>,
    /// The channels that the connection has subscribed to.
    pub subscribed_channels: Vec<Vec<u8>>,
    /// Whether a transaction is open.
    pub staging_commands: bool,
    /// The commands of the open transaction, oldest first.
    pub staged_commands: Vec<RespType>,
    /// Whether the connection is that of a follower.
    pub is_replica_connection: bool,
}

/// The state of one connection as a mathematical value.
pub struct Session {
    pub id: Seq<u8>,
    pub channels: Seq<Seq<u8>>,
    pub staging: bool,
    pub staged: Seq<Frame>,
    pub replica: bool,
}

impl View for Client {
    type V = Session;

    open spec fn view(&self) -> Session {
        Session {
            id: self.id@,
            channels: views(self.subscribed_channels@),
            staging: self.staging_commands,
            staged: frames_of(self.staged_commands@),
            replica: self.is_replica_connection,
        }
    }
}

/// The invariant of a connection: it has subscribed to no channel twice.
pub open spec fn session_wf(s: Session) -> bool {
    s.channels.no_duplicates()
}

/// `uuid::Uuid::new_v4`, written out by the `Display` of `Uuid`: a random
/// id in the hyphenated form, which has 36 bytes. Nothing is claimed of
/// which id it is. The call panics where the operating system gives no
/// random bytes.
#[verifier::external_body]
fn fresh_connection_id() -> (id: Vec<u8>)
    ensures
        id@.len() == 36,
{
    uuid::Uuid::new_v4().to_string().into_bytes()
}

/// A command that waits, kept to be run again.
pub enum Blocked {
    Blpop(BlpopCommand),
    Xread(XreadCommand),
    Wait(WaitCommand),
}

/// A command that waits, as a mathematical value.
pub enum Pending {
    Blpop { key: Seq<u8>, id: Seq<u8>, deadline: Deadline },
    Xread { cursors: Seq<(Seq<u8>, StreamId)>, deadline: Deadline },
    Wait { count: usize, deadline: Deadline },
}

impl View for Blocked {
    type V = Pending;

    open spec fn view(&self) -> Pending {
        match self {
            Blocked::Blpop(c) => Pending::Blpop {
                key: c.list_key@,
                id: c.connection_id@,
                deadline: c.deadline,
            },
            Blocked::Xread(c) => Pending::Xread {
                cursors: cursors_of(c.streams@),
                deadline: c.deadline,
            },
            Blocked::Wait(c) => Pending::Wait { count: c.num_replicas, deadline: c.deadline },
        }
    }
}

/// What one more attempt of a command that waits gives at time `now`.
pub open spec fn pending_outcome(pending: Pending, before: State, now: u128) -> Outcome {
    match pending {
        Pending::Blpop { key, id, deadline } => blpop_outcome(before, key, id, deadline, now),
        Pending::Xread { cursors, deadline } => xread_outcome(before, cursors, deadline, now),
        Pending::Wait { count, deadline } => wait_outcome(before, count, deadline, now),
    }
}

impl Blocked {
    /// Runs the command once more at time `now`. `None` says that it
    /// still waits.
    pub fn retry(&self, instance: &mut Instance, now: u128) -> (reply: Option<Vec<u8>>)
        requires
            old(instance).wf(),
        ensures
            final(instance).wf(),
            final(instance)@ == pending_outcome(self@, old(instance)@, now).state,
            reply_bytes(reply) == pending_outcome(self@, old(instance)@, now).reply,
    {
        match self {
            Blocked::Blpop(c) => c.execute(instance, now),
            Blocked::Xread(c) => c.execute(instance, now),
            Blocked::Wait(c) => c.execute(instance, now),
        }
    }
}

/// What a connection does after a command: it sends a reply, or it waits
/// and runs the command again later.
pub enum Step {
    Reply(Vec<u8>),
    Wait(Blocked),
}

/// What a connection does after a command, as a mathematical value.
pub enum Next {
    Reply(Seq<u8>),
    Wait(Pending),
}

impl View for Step {
    type V = Next;

    open spec fn view(&self) -> Next {
        match self {
            Step::Reply(bytes) => Next::Reply(bytes@),
            Step::Wait(blocked) => Next::Wait(blocked@),
        }
    }
}

impl Step {
    /// The reply, where the command has ended.
    pub fn reply(self) -> (r: Option<Vec<u8>>)
        ensures
            match self@ {
                Next::Reply(bytes) => r matches Some(out) && out@ == bytes,
                Next::Wait(_) => r is None,
            },
    {
        match self {
            Step::Reply(bytes) => Some(bytes),
            Step::Wait(_) => None,
        }
    }
}

impl Client {
    /// The invariant of a connection.
    pub open spec fn wf(&self) -> bool {
        session_wf(self@)
    }

    /// A connection under a fresh random id, with no transaction open
    /// and no subscription.
    pub fn new() -> (c: Client)
        ensures
            c.wf(),
            c@.id.len() == 36,
            c@.channels == Seq::<Seq<u8>>::empty(),
            !c@.staging,
            c@.staged == Seq::<Frame>::empty(),
            !c@.replica,
    {
        Client::with_id(fresh_connection_id())
    }

    /// A connection under the id `id`, with no transaction open and no
    /// subscription.
    pub fn with_id(id: Vec<u8>) -> (c: Client)
        ensures
            c.wf(),
            c@ == (Session {
                id: id@,
                channels: Seq::empty(),
                staging: false,
                staged: Seq::empty(),
                replica: false,
            }),
    {
        let c = Client {
            id,
            subscribed_channels: Vec::new(),
            staging_commands: false,
            staged_commands: Vec::new(),
            is_replica_connection: false,
        };
        assert(c@.channels =~= Seq::<Seq<u8>>::empty());
        assert(c@.staged =~= Seq::<Frame>::empty());
        c
    }
}

} // verus!
