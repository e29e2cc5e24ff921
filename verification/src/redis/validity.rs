//! Checking at run time that values keep their invariants.

use super::client::{entries_of, ids_increase, value_wf, CacheVal, Client, Entry, StreamItem};
use super::instance::{channels_of, channels_wf, Channel, Instance};
use super::store::{same_bytes, Store};
use super::stream_id::StreamId;
use crate::resp::views;
use vstd::prelude::*;

verus! {

/// Whether a list of byte strings holds none twice.
pub fn no_repeats(items: &Vec<Vec<u8>>) -> (b: bool)
    ensures
        b == views(items@).no_duplicates(),
{
    let mut i: usize = 0;
    while i < items.len()
        invariant
            i <= items.len(),
            forall|a: int, c: int|
                0 <= a < i && 0 <= c < items.len() && a != c ==> views(items@)[a] != views(
                    items@,
                )[c],
        decreases items.len() - i,
    {
        let mut j: usize = i + 1;
        while j < items.len()
            invariant
                i < j <= items.len(),
                forall|c: int| i < c < j ==> views(items@)[i as int] != views(items@)[c],
            decreases items.len() - j,
        {
            if same_bytes(items[i].as_slice(), items[j].as_slice()) {
                assert(views(items@)[i as int] == views(items@)[j as int]);
                return false;
            }
            j = j + 1;
        }
        i = i + 1;
    }
    true
}

/// Ids that increase from each entry to the next, the first of them
/// above `0-0`, increase from each entry to every later one.
pub proof fn lemma_steps_make_order(entries: Seq<Entry>)
    requires
        entries.len() > 0 ==> StreamId::zero().lt(entries[0].id),
        forall|i: int|
            0 <= i < entries.len() - 1 ==> (#[trigger] entries[i]).id.lt(entries[i + 1].id),
    ensures
        ids_increase(entries),
    decreases entries.len(),
{
    if entries.len() > 1 {
        let front = entries.drop_last();
        assert forall|i: int| 0 <= i < front.len() - 1 implies (#[trigger] front[i]).id.lt(
            front[i + 1].id,
        ) by {
            assert(front[i] == entries[i]);
            assert(front[i + 1] == entries[i + 1]);
        }
        lemma_steps_make_order(front);
        let last = entries.last();
        let before = entries[entries.len() - 2];
        assert(before.id.lt(last.id));
        assert forall|i: int, j: int| 0 <= i < j < entries.len() implies (
        #[trigger] entries[i]).id.lt((#[trigger] entries[j]).id) by {
            if j < entries.len() - 1 {
                assert(front[i].id.lt(front[j].id));
            } else if i < entries.len() - 2 {
                assert(front[i].id.lt(front[entries.len() - 2].id));
            }
        }
        assert forall|i: int| 0 <= i < entries.len() implies StreamId::zero().lt(
            #[trigger] entries[i].id,
        ) by {
            if i < entries.len() - 1 {
                assert(StreamId::zero().lt(front[i].id));
            } else {
                assert(StreamId::zero().lt(front[0].id));
            }
        }
    }
}

/// Whether the ids of a stream increase, the first of them above `0-0`.
pub fn ids_in_order(stream: &Vec<StreamItem>) -> (b: bool)
    ensures
        b == ids_increase(entries_of(stream@)),
{
    let ghost entries = entries_of(stream@);
    if stream.len() == 0 {
        return true;
    }
    let zero = StreamId { ms: 0, seq: 0 };
    if !zero.less_than(&stream[0].id) {
        assert(!StreamId::zero().lt(entries[0].id));
        return false;
    }
    let mut i: usize = 0;
    while i < stream.len() - 1
        invariant
            stream.len() > 0,
            i <= stream.len() - 1,
            entries == entries_of(stream@),
            forall|k: int| 0 <= k < i ==> (#[trigger] entries[k]).id.lt(entries[k + 1].id),
        decreases stream.len() - i,
    {
        if !stream[i].id.less_than(&stream[i + 1].id) {
            assert(!entries[i as int].id.lt(entries[i + 1].id));
            return false;
        }
        i = i + 1;
    }
    proof {
        lemma_steps_make_order(entries);
    }
    true
}

impl CacheVal {
    /// Whether the value keeps its invariant.
    pub fn is_valid(&self) -> (b: bool)
        ensures
            b == value_wf(self@),
    {
        match self {
            CacheVal::String(_) => true,
            CacheVal::List(l) => no_repeats(&l.block_queue),
            CacheVal::Stream(s) => ids_in_order(&s.stream),
        }
    }
}

impl Store {
    /// Whether the store keeps its invariant.
    pub fn is_valid(&self) -> (b: bool)
        ensures
            b == self.wf(),
    {
        let mut i: usize = 0;
        while i < self.slots.len()
            invariant
                i <= self.slots.len(),
                forall|a: int| 0 <= a < i ==> value_wf((#[trigger] self@[a]).1),
                forall|a: int, c: int|
                    0 <= a < i && a < c < self@.len() ==> (#[trigger] self@[a]).0 != (
                    #[trigger] self@[c]).0,
            decreases self.slots.len() - i,
        {
            if !self.slots[i].val.is_valid() {
                assert(!value_wf(self@[i as int].1));
                return false;
            }
            let mut j: usize = i + 1;
            while j < self.slots.len()
                invariant
                    i < j <= self.slots.len(),
                    forall|c: int| i < c < j ==> self@[i as int].0 != (#[trigger] self@[c]).0,
                decreases self.slots.len() - j,
            {
                if same_bytes(self.slots[i].key.as_slice(), self.slots[j].key.as_slice()) {
                    assert(self@[i as int].0 == self@[j as int].0);
                    return false;
                }
                j = j + 1;
            }
            i = i + 1;
        }
        true
    }
}

/// Whether no channel stands twice and no channel names a subscriber
/// twice.
pub fn channels_valid(channels: &Vec<Channel>) -> (b: bool)
    ensures
        b == channels_wf(channels_of(channels@)),
{
    let ghost all = channels_of(channels@);
    let mut i: usize = 0;
    while i < channels.len()
        invariant
            i <= channels.len(),
            all == channels_of(channels@),
            forall|a: int| 0 <= a < i ==> (#[trigger] all[a]).1.no_duplicates(),
            forall|a: int, c: int|
                0 <= a < i && a < c < all.len() ==> (#[trigger] all[a]).0 != (#[trigger] all[c]).0,
        decreases channels.len() - i,
    {
        if !no_repeats(&channels[i].subscribers) {
            assert(!all[i as int].1.no_duplicates());
            return false;
        }
        let mut j: usize = i + 1;
        while j < channels.len()
            invariant
                i < j <= channels.len(),
                all == channels_of(channels@),
                forall|c: int| i < c < j ==> all[i as int].0 != (#[trigger] all[c]).0,
            decreases channels.len() - j,
        {
            if same_bytes(channels[i].name.as_slice(), channels[j].name.as_slice()) {
                assert(all[i as int].0 == all[j as int].0);
                return false;
            }
            j = j + 1;
        }
        i = i + 1;
    }
    true
}

impl Instance {
    /// Whether the shared state keeps its invariant.
    pub fn is_valid(&self) -> (b: bool)
        ensures
            b == self.wf(),
    {
        self.cache.is_valid() && channels_valid(&self.channel_to_subscribers) && no_repeats(
            &self.replica_clients,
        )
    }
}

impl Client {
    /// Whether the connection keeps its invariant.
    pub fn is_valid(&self) -> (b: bool)
        ensures
            b == self.wf(),
    {
        no_repeats(&self.subscribed_channels)
    }
}

} // verus!
