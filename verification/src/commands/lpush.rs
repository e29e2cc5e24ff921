//! LPUSH

use super::{create_wrong_type_resp, with_table, wrong_type_wire, Outcome, RedisCommand};
use crate::redis::client::{CacheVal, ListCacheVal, Value};
use crate::redis::instance::{Instance, State};
use crate::redis::store::{lemma_update, live, put, Table};
use crate::resp::{create_len_resp, int_wire, views};
use vstd::prelude::*;

verus! {

/// LPUSH: puts values in front of a list, one after the other, so that
/// the last of them comes first; it makes the list where the key holds
/// nothing.
pub struct LpushCommand {
    pub list_key: Vec<u8>,
    pub values: Vec<Vec<u8>>,
}

/// The table after LPUSH, with the reply.
pub open spec fn lpush_result(table: Table, key: Seq<u8>, values: Seq<Seq<u8>>, now: u128) -> (
    Table,
    Seq<u8>,
) {
    match live(table, key, now) {
        None => (
            put(table, key, Value::List { items: values.reverse(), waiters: Seq::empty() }),
            int_wire(values.len() as int),
        ),
        Some(Value::List { items, waiters }) => (
            put(table, key, Value::List { items: values.reverse() + items, waiters }),
            int_wire((values.reverse() + items).len() as int),
        ),
        Some(_) => (table, wrong_type_wire()),
    }
}

/// Puts copies of the items of `src` in front of `dst`, one after the
/// other.
pub fn prepend_copies(dst: &mut Vec<Vec<u8>>, src: &Vec<Vec<u8>>)
    ensures
        views(final(dst)@) == views(src@).reverse() + views(old(dst)@),
{
    let mut i: usize = 0;
    while i < src.len()
        invariant
            i <= src.len(),
            dst.len() == old(dst).len() + i,
            forall|j: int| 0 <= j < i ==> (#[trigger] dst[j])@ == src[i - 1 - j]@,
            forall|j: int| i <= j < dst.len() ==> (#[trigger] dst[j])@ == old(dst)[j - i]@,
        decreases src.len() - i,
    {
        dst.insert(0, src[i].clone());
        i = i + 1;
    }
    assert(views(dst@) =~= views(src@).reverse() + views(old(dst)@));
}

/// What LPUSH gives.
pub open spec fn lpush_outcome(
    before: State,
    key: Seq<u8>,
    values: Seq<Seq<u8>>,
    now: u128,
) -> Outcome {
    let (table, reply) = lpush_result(before.table, key, values, now);
    Outcome { state: with_table(before, table), reply: Some(reply) }
}

impl LpushCommand {
    pub fn new(list_key: Vec<u8>, values: Vec<Vec<u8>>) -> (c: Self)
        ensures
            c.list_key == list_key,
            c.values == values,
    {
        LpushCommand { list_key, values }
    }
}

impl RedisCommand for LpushCommand {
    open spec fn outcome(&self, before: State, now: u128) -> Outcome {
        lpush_outcome(before, self.list_key@, views(self.values@), now)
    }

    fn execute(&self, instance: &mut Instance, now: u128) -> (reply: Option<Vec<u8>>) {
        match instance.cache.live_position(self.list_key.as_slice(), now) {
            Some(i) => {
                if !instance.cache.is_list(i) {
                    return Some(create_wrong_type_resp());
                }
                let l = instance.cache.list_mut(i);
                prepend_copies(&mut l.list, &self.values);
                let len = l.list.len();
                proof {
                    let before = old(instance).cache@;
                    let value = Value::List {
                        items: views(self.values@).reverse() + before[i as int].1->items,
                        waiters: before[i as int].1->waiters,
                    };
                    lemma_update(before, i as int, value);
                    assert(instance.cache@ =~= before.update(i as int, (self.list_key@, value)));
                }
                Some(create_len_resp(len))
            },
            None => {
                let mut list: Vec<Vec<u8>> = Vec::new();
                prepend_copies(&mut list, &self.values);
                assert(views(list@) =~= views(self.values@).reverse());
                let len = list.len();
                let block_queue: Vec<Vec<u8>> = Vec::new();
                assert(views(block_queue@) =~= Seq::<Seq<u8>>::empty());
                instance.cache.insert(
                    self.list_key.clone(),
                    CacheVal::List(ListCacheVal { list, block_queue }),
                );
                Some(create_len_resp(len))
            },
        }
    }
}

} // verus!
