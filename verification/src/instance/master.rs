//! What a leader decides between two commands: what its followers and
//! its subscribers are to be sent.

use crate::commands::{
    ascii, bytes_of, copy_all, find_bytes, lemma_ids_stay_distinct, without,
};
use crate::redis::instance::{deliveries_of, Delivery, Instance, State};
use crate::redis::store::table_without;
use crate::resp::{
    array_wire, bulk_string_wire, concat_all, create_array_resp, create_bulk_string_resp, views,
};
use vstd::prelude::*;

verus! {

/// The pending writes of a leader on their way to its followers.
#[derive(Debug)]
pub struct Broadcast {
    /// The followers, in the order in which they joined.
    pub to: Vec<Vec<u8>>,
    /// The writes as they came over the wire, oldest first, as one run of
    /// bytes.
    pub bytes: Vec<u8>,
}

/// An offset advanced by a number of bytes, as far as 128 bits hold it.
pub open spec fn advanced(offset: u128, bytes: nat) -> u128 {
    if offset + bytes > u128::MAX {
        u128::MAX
    } else {
        (offset + bytes) as u128
    }
}

/// The shared state after the pending writes have been taken for the
/// followers: nothing is pending, no follower has acknowledged, and the
/// offset has grown by the bytes taken.
pub open spec fn after_broadcast(before: State) -> State {
    if before.pending.len() == 0 {
        before
    } else {
        State {
            pending: Seq::empty(),
            acks: 0,
            offset: advanced(before.offset, concat_all(before.pending).len()),
            ..before
        }
    }
}

/// The request for an acknowledgement: `REPLCONF GETACK *`.
pub open spec fn getack_wire() -> Seq<u8> {
    array_wire(
        seq![
            bulk_string_wire(ascii("REPLCONF")),
            bulk_string_wire(ascii("GETACK")),
            bulk_string_wire(ascii("*")),
        ],
    )
}

/// Encodes the request for an acknowledgement, which a leader sends to
/// each follower a moment after a broadcast.
pub fn create_getack_request() -> (out: Vec<u8>)
    ensures
        out@ == getack_wire(),
{
    let mut items: Vec<Vec<u8>> = Vec::new();
    items.push(create_bulk_string_resp(bytes_of("REPLCONF")));
    items.push(create_bulk_string_resp(bytes_of("GETACK")));
    items.push(create_bulk_string_resp(bytes_of("*")));
    assert(views(items@) =~= seq![
        bulk_string_wire(ascii("REPLCONF")),
        bulk_string_wire(ascii("GETACK")),
        bulk_string_wire(ascii("*")),
    ]);
    create_array_resp(items)
}

/// The channels without the subscriber `id`.
pub open spec fn channels_without(
    channels: Seq<(Seq<u8>, Seq<Seq<u8>>)>,
    id: Seq<u8>,
) -> Seq<(Seq<u8>, Seq<Seq<u8>>)> {
    Seq::new(channels.len(), |i: int| (channels[i].0, without(channels[i].1, id)))
}

/// The shared state after a connection has gone: it is no follower and
/// no subscriber any more, and it waits for no list.
pub open spec fn after_leaving(before: State, id: Seq<u8>) -> State {
    State {
        table: table_without(before.table, id),
        followers: without(before.followers, id),
        channels: channels_without(before.channels, id),
        ..before
    }
}

/// A broadcast holds the pending writes in their order: of two writes the
/// earlier one comes first in the bytes that every follower is sent.
pub proof fn law_broadcast_keeps_order(pending: Seq<Seq<u8>>, first: Seq<u8>, second: Seq<u8>)
    ensures
        concat_all(pending.push(first).push(second)) == concat_all(pending) + first + second,
{
    let one = pending.push(first);
    let two = one.push(second);
    assert(two.drop_last() =~= one);
    assert(one.drop_last() =~= pending);
    assert(concat_all(one) == concat_all(pending) + first);
    assert(concat_all(two) == concat_all(one) + second);
}

impl Instance {
    /// Takes the pending writes for the followers. Every follower is to
    /// be sent all of them, in the order in which the leader carried them
    /// out. Where nothing is pending, nothing changes and nothing is to
    /// be sent.
    pub fn take_broadcast(&mut self) -> (r: Option<Broadcast>)
        requires
            old(self).wf(),
        ensures
            final(self).wf(),
            final(self)@ == after_broadcast(old(self)@),
            match r {
                Some(broadcast) => old(self)@.pending.len() > 0 && views(broadcast.to@) == old(
                    self,
                )@.followers && broadcast.bytes@ == concat_all(old(self)@.pending),
                None => old(self)@.pending.len() == 0,
            },
    {
        if self.write_commands.len() == 0 {
            return None;
        }
        let mut bytes: Vec<u8> = Vec::new();
        let mut i: usize = 0;
        assert(views(self.write_commands@).subrange(0, 0) =~= Seq::<Seq<u8>>::empty());
        while i < self.write_commands.len()
            invariant
                i <= self.write_commands.len(),
                bytes@ == concat_all(views(self.write_commands@).subrange(0, i as int)),
            decreases self.write_commands.len() - i,
        {
            proof {
                let next = views(self.write_commands@).subrange(0, i + 1);
                assert(next.drop_last() =~= views(self.write_commands@).subrange(0, i as int));
                assert(next.last() == self.write_commands@[i as int]@);
            }
            bytes.extend_from_slice(self.write_commands[i].as_slice());
            i = i + 1;
        }
        assert(views(self.write_commands@).subrange(0, self.write_commands.len() as int)
            =~= views(self.write_commands@));
        let to = copy_all(&self.replica_clients);
        self.write_commands = Vec::new();
        self.ack_replicas = 0;
        self.master_repl_offset = if bytes.len() as u128 > u128::MAX - self.master_repl_offset {
            u128::MAX
        } else {
            self.master_repl_offset + bytes.len() as u128
        };
        assert(self@.pending =~= Seq::<Seq<u8>>::empty());
        Some(Broadcast { to, bytes })
    }

    /// Takes a follower out of the set, as after a failed write to it.
    pub fn drop_follower(&mut self, id: &[u8])
        requires
            old(self).wf(),
        ensures
            final(self).wf(),
            final(self)@ == (State {
                followers: without(old(self)@.followers, id@),
                ..old(self)@
            }),
    {
        proof {
            lemma_ids_stay_distinct(self@.followers, id@);
        }
        match find_bytes(&self.replica_clients, id) {
            Some(at) => {
                proof {
                    assert(self@.followers[at as int] == id@);
                    assert(self@.followers.index_of(id@) == at);
                }
                self.replica_clients.remove(at);
                assert(self@.followers =~= without(old(self)@.followers, id@));
            },
            None => {},
        }
    }

    /// Forgets a connection that has closed: it is taken out of the
    /// followers, out of the subscribers of every channel and out of the
    /// wait queue of every list.
    pub fn forget(&mut self, id: &[u8])
        requires
            old(self).wf(),
        ensures
            final(self).wf(),
            final(self)@ == after_leaving(old(self)@, id@),
    {
        self.drop_follower(id);
        self.cache.forget_waiter(id);
        let ghost start = self@;
        let ghost before = self@.channels;
        let mut i: usize = 0;
        while i < self.channel_to_subscribers.len()
            invariant
                i <= self.channel_to_subscribers.len(),
                self.wf(),
                self@ == (State { channels: self@.channels, ..start }),
                self@.channels.len() == before.len(),
                forall|j: int|
                    0 <= j < i ==> (#[trigger] self@.channels[j]) == (
                        before[j].0,
                        without(before[j].1, id@),
                    ),
                forall|j: int| i <= j < before.len() ==> (#[trigger] self@.channels[j]) == before[j],
                crate::redis::instance::channels_wf(before),
            decreases self.channel_to_subscribers.len() - i,
        {
            let ghost channels = self@.channels;
            proof {
                assert(channels[i as int] == before[i as int]);
                let ids = before[i as int].1;
                assert(views(self.channel_to_subscribers[i as int].subscribers@) == ids);
                assert(self.channel_to_subscribers[i as int].name@ == before[i as int].0);
                assert(before[i as int].1.no_duplicates());
                lemma_ids_stay_distinct(before[i as int].1, id@);
            }
            match find_bytes(&self.channel_to_subscribers[i].subscribers, id) {
                Some(at) => {
                    proof {
                        assert(before[i as int].1[at as int] == id@);
                        assert(before[i as int].1.index_of(id@) == at);
                    }
                    self.channel_to_subscribers[i].subscribers.remove(at);
                },
                None => {},
            }
            proof {
                assert(views(self.channel_to_subscribers[i as int].subscribers@) =~= without(
                    before[i as int].1,
                    id@,
                ));
                assert(self@.channels =~= channels.update(
                    i as int,
                    (before[i as int].0, without(before[i as int].1, id@)),
                ));
                assert forall|a: int, b: int| 0 <= a < b < self@.channels.len() implies (
                #[trigger] self@.channels[a]).0 != (#[trigger] self@.channels[b]).0 by {
                    assert(channels[a].0 == before[a].0);
                    assert(channels[b].0 == before[b].0);
                }
                assert forall|a: int| 0 <= a < self@.channels.len() implies (
                #[trigger] self@.channels[a]).1.no_duplicates() by {
                    if a != i {
                        assert(self@.channels[a] == channels[a]);
                    }
                }
            }
            i = i + 1;
        }
        assert(self@.channels =~= channels_without(before, id@));
    }

    /// Takes what other connections are to be sent.
    pub fn take_outbox(&mut self) -> (out: Vec<Delivery>)
        requires
            old(self).wf(),
        ensures
            final(self).wf(),
            final(self)@ == (State { outbox: Seq::empty(), ..old(self)@ }),
            deliveries_of(out@) == old(self)@.outbox,
    {
        let mut out: Vec<Delivery> = Vec::new();
        std::mem::swap(&mut out, &mut self.outbox);
        assert(self@.outbox =~= Seq::<(Seq<u8>, Seq<u8>)>::empty());
        out
    }
}

} // verus!
