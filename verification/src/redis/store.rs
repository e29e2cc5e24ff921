//! The shared mapping from keys to values.

use super::client::{unexpired, value_wf, CacheVal, ListCacheVal, StreamCacheVal, Value};
use vstd::prelude::*;

verus! {

/// The keys of a store with what each holds, in the order in which the
/// keys were first written.
pub type Table = Seq<(Seq<u8>, Value)>;

/// Whether a list of keyed slots has a slot for `key`.
pub open spec fn holds<V>(t: Seq<(Seq<u8>, V)>, key: Seq<u8>) -> bool {
    exists|i: int| 0 <= i < t.len() && (#[trigger] t[i]).0 == key
}

/// The slot of `key`, where there is one.
pub open spec fn slot_of<V>(t: Seq<(Seq<u8>, V)>, key: Seq<u8>) -> int {
    choose|i: int| 0 <= i < t.len() && (#[trigger] t[i]).0 == key
}

/// What stands under `key`.
pub open spec fn lookup<V>(t: Seq<(Seq<u8>, V)>, key: Seq<u8>) -> Option<V> {
    if holds(t, key) {
        Some(t[slot_of(t, key)].1)
    } else {
        None
    }
}

/// What a client sees under `key` at time `now`: an expired string is not
/// there.
pub open spec fn live(t: Table, key: Seq<u8>, now: u128) -> Option<Value> {
    match lookup(t, key) {
        Some(Value::String { val, expiry }) => if unexpired(expiry, now) {
            Some(Value::String { val, expiry })
        } else {
            None
        },
        other => other,
    }
}

/// The slots with `value` under `key`: in the key's slot where it has
/// one, in a new last slot where it has none.
pub open spec fn put<V>(t: Seq<(Seq<u8>, V)>, key: Seq<u8>, value: V) -> Seq<(Seq<u8>, V)> {
    if holds(t, key) {
        t.update(slot_of(t, key), (key, value))
    } else {
        t.push((key, value))
    }
}

/// Whether no key has two slots.
pub open spec fn distinct_keys<V>(t: Seq<(Seq<u8>, V)>) -> bool {
    forall|i: int, j: int| 0 <= i < j < t.len() ==> (#[trigger] t[i]).0 != (#[trigger] t[j]).0
}

/// The invariant of a table: keys are unique and every value keeps its
/// own invariant.
pub open spec fn table_wf(t: Table) -> bool {
    &&& distinct_keys(t)
    &&& forall|i: int| 0 <= i < t.len() ==> value_wf((#[trigger] t[i]).1)
}

/// Where keys are unique, a slot that holds `key` is the key's slot.
pub proof fn lemma_slot<V>(t: Seq<(Seq<u8>, V)>, i: int)
    requires
        distinct_keys(t),
        0 <= i < t.len(),
    ensures
        holds(t, t[i].0),
        slot_of(t, t[i].0) == i,
        lookup(t, t[i].0) == Some(t[i].1),
{
    let j = slot_of(t, t[i].0);
    if j < i {
        assert(t[j].0 != t[i].0);
    } else if i < j {
        assert(t[i].0 != t[j].0);
    }
}

/// Writing a value keeps the keys unique, makes the value the one under
/// its key and leaves every other key as it was.
pub proof fn lemma_put_keys<V>(t: Seq<(Seq<u8>, V)>, key: Seq<u8>, value: V)
    requires
        distinct_keys(t),
    ensures
        distinct_keys(put(t, key, value)),
        lookup(put(t, key, value), key) == Some(value),
        forall|other: Seq<u8>|
            other != key ==> lookup(put(t, key, value), other) == lookup(t, other),
{
    let p = put(t, key, value);
    if holds(t, key) {
        let i = slot_of(t, key);
        assert(p[i] == (key, value));
        assert forall|a: int, b: int| 0 <= a < b < p.len() implies (#[trigger] p[a]).0 != (
        #[trigger] p[b]).0 by {
            assert(p[a].0 == t[a].0);
            assert(p[b].0 == t[b].0);
        }
        lemma_slot(p, i);
        assert forall|other: Seq<u8>| other != key implies lookup(p, other) == lookup(t, other) by {
            if holds(t, other) {
                let j = slot_of(t, other);
                assert(p[j] == t[j]);
                lemma_slot(p, j);
                lemma_slot(t, j);
            } else {
                if holds(p, other) {
                    let j = slot_of(p, other);
                    assert(t[j].0 == other);
                }
            }
        }
    } else {
        let n = t.len() as int;
        assert(p[n] == (key, value));
        assert forall|a: int, b: int| 0 <= a < b < p.len() implies (#[trigger] p[a]).0 != (
        #[trigger] p[b]).0 by {
            assert(p[a] == t[a]);
            if b < n {
                assert(p[b] == t[b]);
            }
        }
        lemma_slot(p, n);
        assert forall|other: Seq<u8>| other != key implies lookup(p, other) == lookup(t, other) by {
            if holds(t, other) {
                let j = slot_of(t, other);
                assert(p[j] == t[j]);
                lemma_slot(p, j);
                lemma_slot(t, j);
            } else {
                if holds(p, other) {
                    let j = slot_of(p, other);
                    if j < n {
                        assert(t[j].0 == other);
                    }
                }
            }
        }
    }
}

/// Writing a value keeps the table's invariant, makes the value the one
/// under its key and leaves every other key as it was.
pub proof fn lemma_put(t: Table, key: Seq<u8>, value: Value)
    requires
        table_wf(t),
        value_wf(value),
    ensures
        table_wf(put(t, key, value)),
        lookup(put(t, key, value), key) == Some(value),
        forall|other: Seq<u8>|
            other != key ==> lookup(put(t, key, value), other) == lookup(t, other),
{
    lemma_put_keys(t, key, value);
    let p = put(t, key, value);
    if holds(t, key) {
        let i = slot_of(t, key);
        assert forall|a: int| 0 <= a < p.len() implies value_wf((#[trigger] p[a]).1) by {
            if a != i {
                assert(p[a] == t[a]);
            }
        }
    } else {
        assert forall|a: int| 0 <= a < p.len() implies value_wf((#[trigger] p[a]).1) by {
            if a < t.len() {
                assert(p[a] == t[a]);
            }
        }
    }
}

/// The mapping that a table stands for: the order of its slots aside,
/// each key with what it holds.
pub open spec fn table_map(t: Table) -> Map<Seq<u8>, Value> {
    Map::new(|key: Seq<u8>| holds(t, key), |key: Seq<u8>| t[slot_of(t, key)].1)
}

/// A table is a mapping: writing a value under a key is the insertion of
/// the pair into the mapping, and nothing else.
pub proof fn law_put_is_insertion(t: Table, key: Seq<u8>, value: Value)
    requires
        table_wf(t),
        value_wf(value),
    ensures
        table_map(put(t, key, value)) == table_map(t).insert(key, value),
{
    lemma_put(t, key, value);
    let after = table_map(put(t, key, value));
    let expected = table_map(t).insert(key, value);
    assert forall|k: Seq<u8>| after.dom().contains(k) == expected.dom().contains(k) by {
        if k != key {
            assert(lookup(put(t, key, value), k) == lookup(t, k));
        }
    }
    assert forall|k: Seq<u8>| after.dom().contains(k) implies after[k] == expected[k] by {
        if k != key {
            assert(lookup(put(t, key, value), k) == lookup(t, k));
        }
    }
    assert(after =~= expected);
}

/// In every stream of a table that keeps its invariant the id increases
/// from each entry to the next.
pub proof fn law_streams_stay_in_order(table: Table, key: Seq<u8>, i: int)
    requires
        table_wf(table),
        lookup(table, key) is Some,
        lookup(table, key)->0 is Stream,
        0 <= i,
        i + 1 < lookup(table, key)->0->entries.len(),
    ensures
        ({
            let entries = lookup(table, key)->0->entries;
            entries[i].id.lt(entries[i + 1].id)
        }),
{
    let slot = slot_of(table, key);
    assert(value_wf(table[slot].1));
}

/// Writing a value into the slot of its key is writing it under the key.
pub proof fn lemma_update(t: Table, i: int, value: Value)
    requires
        table_wf(t),
        0 <= i < t.len(),
        value_wf(value),
    ensures
        t.update(i, (t[i].0, value)) == put(t, t[i].0, value),
        table_wf(put(t, t[i].0, value)),
{
    lemma_slot(t, i);
    lemma_put(t, t[i].0, value);
}

/// Whether a client sees the value at time `now`.
pub open spec fn seen(value: Value, now: u128) -> bool {
    match value {
        Value::String { expiry, .. } => unexpired(expiry, now),
        _ => true,
    }
}

/// A value without the waiting connection `id`.
pub open spec fn value_without(value: Value, id: Seq<u8>) -> Value {
    match value {
        Value::List { items, waiters } => Value::List {
            items,
            waiters: crate::commands::without(waiters, id),
        },
        other => other,
    }
}

/// A table in which the connection `id` waits for no list.
pub open spec fn table_without(t: Table, id: Seq<u8>) -> Table {
    Seq::new(t.len(), |i: int| (t[i].0, value_without(t[i].1, id)))
}

/// One key with what it holds.
#[derive(Debug)]
pub struct Slot {
    pub key: Vec<u8>,
    pub val: CacheVal,
}

/// The mapping from keys to values that all connections share.
#[derive(Debug)]
pub struct Store {
    pub slots: Vec<Slot>,
}

/// Whether two byte strings are equal.
pub fn same_bytes(a: &[u8], b: &[u8]) -> (eq: bool)
    ensures
        eq == (a@ == b@),
{
    if a.len() != b.len() {
        return false;
    }
    let mut i: usize = 0;
    while i < a.len()
        invariant
            i <= a.len(),
            a.len() == b.len(),
            forall|j: int| 0 <= j < i ==> a@[j] == b@[j],
        decreases a.len() - i,
    {
        if a[i] != b[i] {
            return false;
        }
        i = i + 1;
    }
    assert(a@ =~= b@);
    true
}

impl View for Store {
    type V = Table;

    open spec fn view(&self) -> Table {
        Seq::new(self.slots.len() as nat, |i: int| (self.slots[i].key@, self.slots[i].val@))
    }
}

impl Store {
    /// The invariant of a store.
    pub open spec fn wf(&self) -> bool {
        table_wf(self@)
    }

    /// A store without keys.
    pub fn new() -> (s: Store)
        ensures
            s@ == Seq::<(Seq<u8>, Value)>::empty(),
            s.wf(),
    {
        let s = Store { slots: Vec::new() };
        assert(s@ =~= Seq::<(Seq<u8>, Value)>::empty());
        s
    }

    /// The number of keys, expired strings included.
    pub fn len(&self) -> (n: usize)
        ensures
            n == self@.len(),
    {
        self.slots.len()
    }

    /// The slot of `key`.
    pub fn position(&self, key: &[u8]) -> (r: Option<usize>)
        requires
            self.wf(),
        ensures
            match r {
                Some(i) => i < self@.len() && self@[i as int].0 == key@ && holds(self@, key@)
                    && slot_of(self@, key@) == i,
                None => !holds(self@, key@),
            },
    {
        let mut i: usize = 0;
        while i < self.slots.len()
            invariant
                self.wf(),
                i <= self.slots.len(),
                forall|j: int| 0 <= j < i ==> (#[trigger] self@[j]).0 != key@,
            decreases self.slots.len() - i,
        {
            if same_bytes(self.slots[i].key.as_slice(), key) {
                proof {
                    lemma_slot(self@, i as int);
                }
                return Some(i);
            }
            i = i + 1;
        }
        None
    }

    /// What the store holds under `key`, expired or not.
    pub fn get(&self, key: &[u8]) -> (r: Option<&CacheVal>)
        requires
            self.wf(),
        ensures
            match lookup(self@, key@) {
                Some(v) => r matches Some(found) && found@ == v,
                None => r is None,
            },
    {
        match self.position(key) {
            Some(i) => Some(&self.slots[i].val),
            None => None,
        }
    }

    /// Whether the store has a slot for `key`.
    pub fn contains_key(&self, key: &[u8]) -> (b: bool)
        requires
            self.wf(),
        ensures
            b == holds(self@, key@),
    {
        self.position(key).is_some()
    }

    /// Whether a client sees the value in slot `i` at time `now`.
    pub fn is_seen(&self, i: usize, now: u128) -> (b: bool)
        requires
            i < self.slots.len(),
        ensures
            b == seen(self@[i as int].1, now),
    {
        match &self.slots[i].val {
            CacheVal::String(s) => match s.expiry_time {
                Some(at) => now < at,
                None => true,
            },
            _ => true,
        }
    }

    /// The slot of `key`, where a client sees a value under it at time
    /// `now`.
    pub fn live_position(&self, key: &[u8], now: u128) -> (r: Option<usize>)
        requires
            self.wf(),
        ensures
            match r {
                Some(i) => i < self@.len() && self@[i as int].0 == key@ && holds(self@, key@)
                    && slot_of(self@, key@) == i && live(self@, key@, now) == Some(
                    self@[i as int].1,
                ),
                None => live(self@, key@, now) is None,
            },
    {
        match self.position(key) {
            Some(i) => if self.is_seen(i, now) {
                Some(i)
            } else {
                None
            },
            None => None,
        }
    }

    /// Whether slot `i` holds a list.
    pub fn is_list(&self, i: usize) -> (b: bool)
        requires
            i < self.slots.len(),
        ensures
            b == (self.slots[i as int].val is List),
            b == (self@[i as int].1 is List),
    {
        match &self.slots[i].val {
            CacheVal::List(_) => true,
            _ => false,
        }
    }

    /// Whether slot `i` holds a stream.
    pub fn is_stream(&self, i: usize) -> (b: bool)
        requires
            i < self.slots.len(),
        ensures
            b == (self.slots[i as int].val is Stream),
            b == (self@[i as int].1 is Stream),
    {
        match &self.slots[i].val {
            CacheVal::Stream(_) => true,
            _ => false,
        }
    }

    /// The list in slot `i`, to be changed in place.
    pub fn list_mut(&mut self, i: usize) -> (l: &mut ListCacheVal)
        requires
            i < old(self).slots.len(),
            old(self).slots[i as int].val is List,
        ensures
            *l == old(self).slots[i as int].val->List_0,
            final(self).slots@ == old(self).slots@.update(
                i as int,
                Slot { key: old(self).slots[i as int].key, val: CacheVal::List(*final(l)) },
            ),
    {
        match &mut self.slots[i].val {
            CacheVal::List(l) => l,
            _ => vstd::pervasive::unreached(),
        }
    }

    /// The stream in slot `i`, to be changed in place.
    pub fn stream_mut(&mut self, i: usize) -> (s: &mut StreamCacheVal)
        requires
            i < old(self).slots.len(),
            old(self).slots[i as int].val is Stream,
        ensures
            *s == old(self).slots[i as int].val->Stream_0,
            final(self).slots@ == old(self).slots@.update(
                i as int,
                Slot { key: old(self).slots[i as int].key, val: CacheVal::Stream(*final(s)) },
            ),
    {
        match &mut self.slots[i].val {
            CacheVal::Stream(s) => s,
            _ => vstd::pervasive::unreached(),
        }
    }

    /// Takes a connection out of the wait queue of every list.
    pub fn forget_waiter(&mut self, id: &[u8])
        requires
            old(self).wf(),
        ensures
            final(self).wf(),
            final(self)@ == table_without(old(self)@, id@),
    {
        let ghost before = self@;
        let mut i: usize = 0;
        while i < self.slots.len()
            invariant
                i <= self.slots.len(),
                table_wf(before),
                self@.len() == before.len(),
                forall|j: int|
                    0 <= j < i ==> (#[trigger] self@[j]) == (
                        before[j].0,
                        value_without(before[j].1, id@),
                    ),
                forall|j: int| i <= j < before.len() ==> (#[trigger] self@[j]) == before[j],
            decreases self.slots.len() - i,
        {
            if self.is_list(i) {
                let ghost table = self@;
                let ghost waiters = before[i as int].1->waiters;
                proof {
                    assert(table[i as int] == before[i as int]);
                    assert(value_wf(before[i as int].1));
                    crate::commands::lemma_ids_stay_distinct(waiters, id@);
                }
                let l = self.list_mut(i);
                match crate::commands::find_bytes(&l.block_queue, id) {
                    Some(at) => {
                        proof {
                            assert(waiters[at as int] == id@);
                            assert(waiters.index_of(id@) == at);
                        }
                        l.block_queue.remove(at);
                    },
                    None => {},
                }
                proof {
                    assert(crate::resp::views(l.block_queue@) =~= crate::commands::without(
                        waiters,
                        id@,
                    ));
                    assert(self@ =~= table.update(
                        i as int,
                        (before[i as int].0, value_without(before[i as int].1, id@)),
                    ));
                }
            }
            i = i + 1;
        }
        proof {
            assert(self@ =~= table_without(before, id@));
            let after = self@;
            assert forall|a: int, b: int| 0 <= a < b < after.len() implies (#[trigger] after[a]).0
                != (#[trigger] after[b]).0 by {
                assert(after[a].0 == before[a].0);
                assert(after[b].0 == before[b].0);
            }
            assert forall|a: int| 0 <= a < after.len() implies value_wf((#[trigger] after[a]).1) by {
                assert(value_wf(before[a].1));
                if before[a].1 is List {
                    crate::commands::lemma_ids_stay_distinct(before[a].1->waiters, id@);
                }
            }
        }
    }

    /// Puts `val` under `key`, in place of what the key held.
    pub fn insert(&mut self, key: Vec<u8>, val: CacheVal)
        requires
            old(self).wf(),
            value_wf(val@),
        ensures
            final(self).wf(),
            final(self)@ == put(old(self)@, key@, val@),
    {
        proof {
            lemma_put(self@, key@, val@);
        }
        match self.position(key.as_slice()) {
            Some(i) => {
                self.slots[i].val = val;
                assert(self@ =~= put(old(self)@, key@, val@));
            },
            None => {
                self.slots.push(Slot { key, val });
                assert(self@ =~= put(old(self)@, key@, val@));
            },
        }
    }
}

} // verus!
