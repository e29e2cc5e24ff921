//! KEYS

use super::{bulks, Outcome, RedisCommand};
use crate::redis::instance::{Instance, State};
use crate::redis::store::{seen, Table};
use crate::resp::{array_wire, create_array_resp, create_bulk_string_resp, views};
use vstd::prelude::*;

verus! {

/// KEYS: replies every key under which a client sees a value, whatever
/// the pattern.
pub struct KeysCommand {
    pub pattern: Vec<u8>,
}

/// The keys under which a client sees a value at time `now`, in the order
/// of the table.
pub open spec fn live_keys(table: Table, now: u128) -> Seq<Seq<u8>>
    decreases table.len(),
{
    if table.len() == 0 {
        Seq::empty()
    } else if seen(table.last().1, now) {
        live_keys(table.drop_last(), now).push(table.last().0)
    } else {
        live_keys(table.drop_last(), now)
    }
}

/// What KEYS gives.
pub open spec fn keys_outcome(before: State, now: u128) -> Outcome {
    Outcome { state: before, reply: Some(array_wire(bulks(live_keys(before.table, now)))) }
}

impl KeysCommand {
    pub fn new(pattern: Vec<u8>) -> (c: Self)
        ensures
            c.pattern == pattern,
    {
        KeysCommand { pattern }
    }
}

impl RedisCommand for KeysCommand {
    open spec fn outcome(&self, before: State, now: u128) -> Outcome {
        keys_outcome(before, now)
    }

    fn execute(&self, instance: &mut Instance, now: u128) -> (reply: Option<Vec<u8>>) {
        let mut keys: Vec<Vec<u8>> = Vec::new();
        let mut i: usize = 0;
        while i < instance.cache.slots.len()
            invariant
                i <= instance.cache.slots.len(),
                views(keys@) =~= bulks(live_keys(instance.cache@.subrange(0, i as int), now)),
            decreases instance.cache.slots.len() - i,
        {
            proof {
                let next = instance.cache@.subrange(0, i + 1);
                assert(next.drop_last() =~= instance.cache@.subrange(0, i as int));
                assert(next.last() == instance.cache@[i as int]);
            }
            if instance.cache.is_seen(i, now) {
                let ghost before = keys@;
                let ghost found = live_keys(instance.cache@.subrange(0, i as int), now);
                keys.push(create_bulk_string_resp(instance.cache.slots[i].key.clone()));
                assert(views(keys@) =~= views(before).push(keys@[keys.len() - 1]@));
                assert(bulks(found.push(instance.cache@[i as int].0)) =~= bulks(found).push(
                    crate::resp::bulk_string_wire(instance.cache@[i as int].0),
                ));
            }
            i = i + 1;
        }
        assert(instance.cache@.subrange(0, instance.cache@.len() as int) =~= instance.cache@);
        Some(create_array_resp(keys))
    }
}

} // verus!
