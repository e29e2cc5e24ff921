//! LPOP

use super::{bulks, create_wrong_type_resp, with_table, wrong_type_wire, Outcome, RedisCommand};
use crate::redis::client::Value;
use crate::redis::instance::{Instance, State};
use crate::redis::store::{lemma_update, live, put, Table};
use crate::resp::{
    array_wire, bulk_string_wire, create_array_resp, create_bulk_string_resp,
    create_null_bulk_string_resp, null_bulk_string_wire, views,
};
use vstd::prelude::*;

verus! {

/// LPOP: takes items from the front of a list. Without a count, or with
/// a count of 1, it replies the one item as a bulk string; with another
/// count, up to that many items as an array.
pub struct LpopCommand {
    pub list_key: Vec<u8>,
    pub count: Option<usize>,
}

/// How many items LPOP takes from a list of `len` items.
pub open spec fn lpop_take(count: Option<usize>, len: nat) -> nat {
    match count {
        Some(c) => if c <= len {
            c as nat
        } else {
            len
        },
        None => 1,
    }
}

/// The table after LPOP, with the reply.
pub open spec fn lpop_result(table: Table, key: Seq<u8>, count: Option<usize>, now: u128) -> (
    Table,
    Seq<u8>,
) {
    match live(table, key, now) {
        None => (table, null_bulk_string_wire()),
        Some(Value::List { items, waiters }) => if items.len() == 0 {
            (table, null_bulk_string_wire())
        } else {
            let n = lpop_take(count, items.len()) as int;
            (
                put(
                    table,
                    key,
                    Value::List { items: items.subrange(n, items.len() as int), waiters },
                ),
                if count is None || count == Some(1usize) {
                    bulk_string_wire(items[0])
                } else {
                    array_wire(bulks(items.subrange(0, n)))
                },
            )
        },
        Some(_) => (table, wrong_type_wire()),
    }
}

/// What LPOP gives.
pub open spec fn lpop_outcome(
    before: State,
    key: Seq<u8>,
    count: Option<usize>,
    now: u128,
) -> Outcome {
    let (table, reply) = lpop_result(before.table, key, count, now);
    Outcome { state: with_table(before, table), reply: Some(reply) }
}

impl LpopCommand {
    pub fn new(list_key: Vec<u8>, count: Option<usize>) -> (c: Self)
        ensures
            c.list_key == list_key,
            c.count == count,
    {
        LpopCommand { list_key, count }
    }
}

impl RedisCommand for LpopCommand {
    open spec fn outcome(&self, before: State, now: u128) -> Outcome {
        lpop_outcome(before, self.list_key@, self.count, now)
    }

    fn execute(&self, instance: &mut Instance, now: u128) -> (reply: Option<Vec<u8>>) {
        match instance.cache.live_position(self.list_key.as_slice(), now) {
            Some(i) => {
                if !instance.cache.is_list(i) {
                    return Some(create_wrong_type_resp());
                }
                let ghost before = instance.cache@;
                let ghost items = before[i as int].1->items;
                let ghost waiters = before[i as int].1->waiters;
                let l = instance.cache.list_mut(i);
                let ghost queue = l.block_queue;
                if l.list.len() == 0 {
                    assert(instance.cache@ =~= before);
                    return Some(create_null_bulk_string_resp());
                }
                let single = match self.count {
                    Some(c) => c == 1,
                    None => true,
                };
                let take: usize = match self.count {
                    Some(c) => if c <= l.list.len() {
                        c
                    } else {
                        l.list.len()
                    },
                    None => 1,
                };
                let out = if single {
                    let first = l.list.remove(0);
                    create_bulk_string_resp(first)
                } else {
                    let mut taken: Vec<Vec<u8>> = Vec::new();
                    let mut k: usize = 0;
                    while k < take
                        invariant
                            k <= take <= items.len(),
                            l.block_queue == queue,
                            l.list.len() == items.len() - k,
                            forall|j: int|
                                0 <= j < l.list.len() ==> (#[trigger] l.list[j])@ == items[k + j],
                            taken.len() == k,
                            forall|j: int|
                                0 <= j < k ==> (#[trigger] taken[j])@ == bulk_string_wire(items[j]),
                        decreases take - k,
                    {
                        let item = l.list.remove(0);
                        taken.push(create_bulk_string_resp(item));
                        k = k + 1;
                    }
                    assert(views(taken@) =~= bulks(items.subrange(0, take as int)));
                    create_array_resp(taken)
                };
                proof {
                    let value = Value::List {
                        items: items.subrange(take as int, items.len() as int),
                        waiters,
                    };
                    assert(views(l.list@) =~= items.subrange(take as int, items.len() as int));
                    lemma_update(before, i as int, value);
                    assert(instance.cache@ =~= before.update(i as int, (self.list_key@, value)));
                }
                Some(out)
            },
            None => Some(create_null_bulk_string_resp()),
        }
    }
}

} // verus!
