//! The state that all connections of one server share, behind one lock.

use super::store::{table_wf, Store, Table};
use crate::resp::views;
use vstd::prelude::*;
use vstd::string::{StrSliceExecFns, StringSliceAdditionalSpecFns};

verus! {

/// A channel with the connections subscribed to it.
#[derive(Debug)]
pub struct Channel {
    pub name: Vec<u8>,
    pub subscribers: Vec<Vec<u8>>,
}

/// Bytes to be written to the sink of another connection.
#[derive(Debug)]
pub struct Delivery {
    pub to: Vec<u8>,
    pub bytes: Vec<u8>,
}

/// What a server holds besides its sockets: the store, the subscriptions
/// and the replication bookkeeping.
#[derive(Debug)]
pub struct Instance {
    /// Whether this server is a leader.
    pub is_master: bool,
    /// The keys and their values.
    pub cache: Store,
    /// The channels with their subscribers.
    pub channel_to_subscribers: Vec<Channel>,
    /// The write commands, as they came over the wire, that the followers
    /// have not been sent yet, oldest first.
    pub write_commands: Vec<Vec<u8>>,
    /// The connections that are followers.
    pub replica_clients: Vec<Vec<u8>>,
    /// How many followers have acknowledged the last broadcast.
    pub ack_replicas: usize,
    /// The id of the leader's replication stream.
    pub master_repl_id: Vec<u8>,
    /// On a leader, the bytes sent to followers so far; on a follower, the
    /// bytes consumed from the leader so far.
    pub master_repl_offset: u128,
    /// What other connections are to be sent, oldest first.
    pub outbox: Vec<Delivery>,
}

/// The shared state as a mathematical value.
pub struct State {
    pub leader: bool,
    pub table: Table,
    pub channels: Seq<(Seq<u8>, Seq<Seq<u8>>)>,
    pub pending: Seq<Seq<u8>>,
    pub followers: Seq<Seq<u8>>,
    pub acks: nat,
    pub repl_id: Seq<u8>,
    pub offset: u128,
    pub outbox: Seq<(Seq<u8>, Seq<u8>)>,
}

/// The channels that a list of channels stands for.
pub open spec fn channels_of(channels: Seq<Channel>) -> Seq<(Seq<u8>, Seq<Seq<u8>>)> {
    Seq::new(channels.len(), |i: int| (channels[i].name@, views(channels[i].subscribers@)))
}

/// The deliveries that a list of deliveries stands for.
pub open spec fn deliveries_of(outbox: Seq<Delivery>) -> Seq<(Seq<u8>, Seq<u8>)> {
    Seq::new(outbox.len(), |i: int| (outbox[i].to@, outbox[i].bytes@))
}

/// The invariant of the channels: no channel stands twice, and no channel
/// names a subscriber twice.
pub open spec fn channels_wf(channels: Seq<(Seq<u8>, Seq<Seq<u8>>)>) -> bool {
    &&& forall|i: int, j: int|
        0 <= i < j < channels.len() ==> (#[trigger] channels[i]).0 != (#[trigger] channels[j]).0
    &&& forall|i: int| 0 <= i < channels.len() ==> (#[trigger] channels[i]).1.no_duplicates()
}

/// The invariant of the shared state.
pub open spec fn state_wf(s: State) -> bool {
    &&& table_wf(s.table)
    &&& channels_wf(s.channels)
    &&& s.followers.no_duplicates()
}

impl View for Instance {
    type V = State;

    open spec fn view(&self) -> State {
        State {
            leader: self.is_master,
            table: self.cache@,
            channels: channels_of(self.channel_to_subscribers@),
            pending: views(self.write_commands@),
            followers: views(self.replica_clients@),
            acks: self.ack_replicas as nat,
            repl_id: self.master_repl_id@,
            offset: self.master_repl_offset,
            outbox: deliveries_of(self.outbox@),
        }
    }
}

/// The id under which a leader starts its replication stream.
pub open spec fn initial_repl_id() -> Seq<u8> {
    "8371b4fb1155b71f4a04d3e1bc3e18c4a990aeeb".spec_bytes()
}

impl Instance {
    /// The invariant of the shared state.
    pub open spec fn wf(&self) -> bool {
        state_wf(self@)
    }

    /// The state of a server that starts with `cache` as its store: a
    /// leader unless `is_master` is false, with nothing pending.
    pub fn new(cache: Store, is_master: bool) -> (instance: Instance)
        requires
            cache.wf(),
        ensures
            instance.wf(),
            instance@ == (State {
                leader: is_master,
                table: cache@,
                channels: Seq::empty(),
                pending: Seq::empty(),
                followers: Seq::empty(),
                acks: 0,
                repl_id: initial_repl_id(),
                offset: 0,
                outbox: Seq::empty(),
            }),
    {
        let instance = Instance {
            is_master,
            cache,
            channel_to_subscribers: Vec::new(),
            write_commands: Vec::new(),
            replica_clients: Vec::new(),
            ack_replicas: 0,
            master_repl_id: "8371b4fb1155b71f4a04d3e1bc3e18c4a990aeeb".as_bytes_vec(),
            master_repl_offset: 0,
            outbox: Vec::new(),
        };
        assert(instance@.channels =~= Seq::empty());
        assert(instance@.pending =~= Seq::empty());
        assert(instance@.followers =~= Seq::empty());
        assert(instance@.outbox =~= Seq::empty());
        instance
    }
}

} // verus!
