//! BLPOP

use super::{
    create_wrong_type_resp, find_bytes, lemma_ids_stay_distinct, passed, with_id, with_table,
    without, wrong_type_wire, Deadline, Outcome, RedisCommand,
};
use crate::redis::client::{CacheVal, ListCacheVal, Value};
use crate::redis::instance::{Instance, State};
use crate::redis::store::{lemma_put, lemma_update, live, put, same_bytes, table_wf, Table};
use crate::resp::{
    array_wire, bulk_string_wire, create_array_resp, create_bulk_string_resp,
    create_null_bulk_string_resp, null_bulk_string_wire, views,
};
use vstd::prelude::*;

verus! {

/// BLPOP: takes the first item of a list once there is one and once the
/// connection is the first of those that wait for it. Until then the
/// connection stands in the list's wait queue; behind its deadline it
/// leaves the queue and gets the null bulk string.
pub struct BlpopCommand {
    pub list_key: Vec<u8>,
    pub connection_id: Vec<u8>,
    pub deadline: Deadline,
}

/// Whether a connection is the one to be served next: it is the first in
/// the wait queue, or nobody waits.
pub open spec fn at_front(waiters: Seq<Seq<u8>>, id: Seq<u8>) -> bool {
    waiters.len() == 0 || waiters[0] == id
}

/// What one attempt of BLPOP makes of a list and its wait queue, with
/// the reply where the attempt ends the command.
pub open spec fn blpop_step(
    key: Seq<u8>,
    items: Seq<Seq<u8>>,
    waiters: Seq<Seq<u8>>,
    id: Seq<u8>,
    deadline: Deadline,
    now: u128,
) -> (Value, Option<Seq<u8>>) {
    if at_front(waiters, id) && items.len() > 0 {
        (
            Value::List {
                items: items.drop_first(),
                waiters: if waiters.len() > 0 {
                    waiters.drop_first()
                } else {
                    waiters
                },
            },
            Some(array_wire(seq![bulk_string_wire(key), bulk_string_wire(items[0])])),
        )
    } else if passed(deadline, now) {
        (Value::List { items, waiters: without(waiters, id) }, Some(null_bulk_string_wire()))
    } else {
        (Value::List { items, waiters: with_id(waiters, id) }, None)
    }
}

/// The table after one attempt of BLPOP, with the reply where the
/// attempt ends the command.
pub open spec fn blpop_result(
    table: Table,
    key: Seq<u8>,
    id: Seq<u8>,
    deadline: Deadline,
    now: u128,
) -> (Table, Option<Seq<u8>>) {
    match live(table, key, now) {
        Some(Value::List { items, waiters }) => {
            let (value, reply) = blpop_step(key, items, waiters, id, deadline, now);
            (put(table, key, value), reply)
        },
        None => {
            let (value, reply) = blpop_step(key, Seq::empty(), Seq::empty(), id, deadline, now);
            (put(table, key, value), reply)
        },
        Some(_) => (table, Some(wrong_type_wire())),
    }
}

/// What one attempt of BLPOP gives.
pub open spec fn blpop_outcome(
    before: State,
    key: Seq<u8>,
    id: Seq<u8>,
    deadline: Deadline,
    now: u128,
) -> Outcome {
    let (table, reply) = blpop_result(before.table, key, id, deadline, now);
    Outcome { state: with_table(before, table), reply }
}

/// A connection that starts to wait joins the end of the queue: those
/// that waited before it stay in front of it, in their order.
pub proof fn law_blpop_joins_at_the_end(
    key: Seq<u8>,
    waiters: Seq<Seq<u8>>,
    id: Seq<u8>,
    deadline: Deadline,
    now: u128,
)
    requires
        !waiters.contains(id),
        !passed(deadline, now),
    ensures
        blpop_step(key, Seq::empty(), waiters, id, deadline, now) == (
            Value::List { items: Seq::empty(), waiters: waiters.push(id) },
            None::<Seq<u8>>,
        ),
{
}

/// Of the connections that wait for a list, the first is served first:
/// its attempt takes the first item and leaves the queue to those behind
/// it, in their order.
pub proof fn law_blpop_serves_the_front(
    key: Seq<u8>,
    items: Seq<Seq<u8>>,
    waiters: Seq<Seq<u8>>,
    deadline: Deadline,
    now: u128,
)
    requires
        items.len() > 0,
        waiters.len() > 0,
    ensures
        blpop_step(key, items, waiters, waiters[0], deadline, now) == (
            Value::List { items: items.drop_first(), waiters: waiters.drop_first() },
            Some(array_wire(seq![bulk_string_wire(key), bulk_string_wire(items[0])])),
        ),
{
}

/// A connection that is not the first of those that wait takes nothing:
/// its attempt leaves the items as they are and the first in its place.
/// It gets no reply but the null bulk string behind its deadline.
pub proof fn law_blpop_keeps_the_others_waiting(
    key: Seq<u8>,
    items: Seq<Seq<u8>>,
    waiters: Seq<Seq<u8>>,
    id: Seq<u8>,
    deadline: Deadline,
    now: u128,
)
    requires
        waiters.no_duplicates(),
        waiters.len() > 0,
        waiters[0] != id,
    ensures
        ({
            let (value, reply) = blpop_step(key, items, waiters, id, deadline, now);
            &&& value matches Value::List { items: left, waiters: queue } && left == items
                && queue.len() > 0 && queue[0] == waiters[0]
            &&& reply == if passed(deadline, now) {
                Some(null_bulk_string_wire())
            } else {
                None
            }
        }),
{
    if waiters.contains(id) {
        let at = waiters.index_of(id);
        assert(at != 0);
        assert(waiters.remove(at)[0] == waiters[0]);
    } else {
        assert(waiters.push(id)[0] == waiters[0]);
    }
}

/// While connections wait for a list that holds an item, the item goes
/// to the first of them and to no other: an attempt is replied the item
/// if and only if it is the attempt of the first in the queue.
pub proof fn law_blpop_item_goes_to_the_front(
    key: Seq<u8>,
    items: Seq<Seq<u8>>,
    waiters: Seq<Seq<u8>>,
    id: Seq<u8>,
    deadline: Deadline,
    now: u128,
)
    requires
        items.len() > 0,
        waiters.len() > 0,
    ensures
        blpop_step(key, items, waiters, id, deadline, now).1 == Some(
            array_wire(seq![bulk_string_wire(key), bulk_string_wire(items[0])]),
        ) <==> id == waiters[0],
{
    let pair = array_wire(seq![bulk_string_wire(key), bulk_string_wire(items[0])]);
    assert(pair[0] == 42);
    assert(null_bulk_string_wire()[0] == 36);
}

/// A value that is pushed to an empty list for which connections wait
/// reaches the first of them: after the push, the attempt of the first
/// in the queue is replied the value, and the list is left with the
/// other values of the push and with the other connections, in their
/// order.
pub proof fn law_push_reaches_the_first_waiter(
    table: Table,
    key: Seq<u8>,
    waiters: Seq<Seq<u8>>,
    values: Seq<Seq<u8>>,
    deadline: Deadline,
    now: u128,
)
    requires
        table_wf(table),
        live(table, key, now) == Some(Value::List { items: Seq::empty(), waiters }),
        waiters.len() > 0,
        values.len() > 0,
    ensures
        ({
            let pushed = super::rpush::rpush_result(table, key, values, now).0;
            let (after, reply) = blpop_result(pushed, key, waiters[0], deadline, now);
            &&& reply == Some(array_wire(seq![bulk_string_wire(key), bulk_string_wire(values[0])]))
            &&& live(after, key, now) == Some(
                Value::List { items: values.drop_first(), waiters: waiters.drop_first() },
            )
        }),
{
    let filled = Value::List { items: Seq::<Seq<u8>>::empty() + values, waiters };
    assert(Seq::<Seq<u8>>::empty() + values =~= values);
    lemma_put(table, key, filled);
    let pushed = put(table, key, filled);
    let served = Value::List { items: values.drop_first(), waiters: waiters.drop_first() };
    assert(waiters.drop_first().no_duplicates()) by {
        let rest = waiters.drop_first();
        assert forall|a: int, b: int|
            0 <= a < rest.len() && 0 <= b < rest.len() && a != b implies rest[a] != rest[b] by {
            assert(rest[a] == waiters[a + 1]);
            assert(rest[b] == waiters[b + 1]);
        }
    }
    lemma_put(pushed, key, served);
}

impl BlpopCommand {
    pub fn new(list_key: Vec<u8>, connection_id: Vec<u8>, deadline: Deadline) -> (c: Self)
        ensures
            c.list_key == list_key,
            c.connection_id == connection_id,
            c.deadline == deadline,
    {
        BlpopCommand { list_key, connection_id, deadline }
    }

}

impl RedisCommand for BlpopCommand {
    open spec fn outcome(&self, before: State, now: u128) -> Outcome {
        blpop_outcome(before, self.list_key@, self.connection_id@, self.deadline, now)
    }

    fn execute(&self, instance: &mut Instance, now: u128) -> (reply: Option<Vec<u8>>) {
        let ghost before = instance.cache@;
        let ghost id = self.connection_id@;
        match instance.cache.live_position(self.list_key.as_slice(), now) {
            Some(i) => {
                if !instance.cache.is_list(i) {
                    return Some(create_wrong_type_resp());
                }
                let ghost items = before[i as int].1->items;
                let ghost waiters = before[i as int].1->waiters;
                proof {
                    lemma_ids_stay_distinct(waiters, id);
                }
                let timed_out = self.deadline.has_passed(now);
                let l = instance.cache.list_mut(i);
                let first = l.block_queue.len() == 0 || same_bytes(
                    l.block_queue[0].as_slice(),
                    self.connection_id.as_slice(),
                );
                if first && l.list.len() > 0 {
                    let item = l.list.remove(0);
                    if l.block_queue.len() > 0 {
                        l.block_queue.remove(0);
                    }
                    let mut pair: Vec<Vec<u8>> = Vec::new();
                    pair.push(create_bulk_string_resp(self.list_key.clone()));
                    pair.push(create_bulk_string_resp(item));
                    proof {
                        let value = blpop_step(
                            self.list_key@,
                            items,
                            waiters,
                            id,
                            self.deadline,
                            now,
                        ).0;
                        assert(views(l.list@) =~= items.drop_first());
                        assert(views(l.block_queue@) =~= value->waiters);
                        assert(value->waiters.no_duplicates()) by {
                            if waiters.len() > 0 {
                                let rest = waiters.drop_first();
                                assert forall|a: int, b: int|
                                    0 <= a < rest.len() && 0 <= b < rest.len() && a
                                        != b implies rest[a] != rest[b] by {
                                    assert(rest[a] == waiters[a + 1]);
                                    assert(rest[b] == waiters[b + 1]);
                                }
                            }
                        }
                        lemma_update(before, i as int, value);
                        assert(instance.cache@ =~= before.update(
                            i as int,
                            (self.list_key@, value),
                        ));
                        assert(views(pair@) =~= seq![
                            bulk_string_wire(self.list_key@),
                            bulk_string_wire(items[0]),
                        ]);
                    }
                    Some(create_array_resp(pair))
                } else {
                    let found = find_bytes(&l.block_queue, self.connection_id.as_slice());
                    if timed_out {
                        match found {
                            Some(at) => {
                                proof {
                                    assert(waiters[at as int] == id);
                                    assert(waiters.index_of(id) == at);
                                }
                                l.block_queue.remove(at);
                                assert(views(l.block_queue@) =~= without(waiters, id));
                            },
                            None => {},
                        }
                        proof {
                            let value = Value::List { items, waiters: without(waiters, id) };
                            lemma_update(before, i as int, value);
                            assert(instance.cache@ =~= before.update(
                                i as int,
                                (self.list_key@, value),
                            ));
                        }
                        Some(create_null_bulk_string_resp())
                    } else {
                        if found.is_none() {
                            l.block_queue.push(self.connection_id.clone());
                            assert(views(l.block_queue@) =~= with_id(waiters, id));
                        }
                        proof {
                            let value = Value::List { items, waiters: with_id(waiters, id) };
                            lemma_update(before, i as int, value);
                            assert(instance.cache@ =~= before.update(
                                i as int,
                                (self.list_key@, value),
                            ));
                        }
                        None
                    }
                }
            },
            None => {
                let list: Vec<Vec<u8>> = Vec::new();
                let mut block_queue: Vec<Vec<u8>> = Vec::new();
                let timed_out = self.deadline.has_passed(now);
                if !timed_out {
                    block_queue.push(self.connection_id.clone());
                }
                proof {
                    let none = Seq::<Seq<u8>>::empty();
                    assert(views(list@) =~= none);
                    assert(!none.contains(id));
                    assert(views(block_queue@) =~= if timed_out {
                        without(none, id)
                    } else {
                        with_id(none, id)
                    });
                    lemma_ids_stay_distinct(none, id);
                }
                instance.cache.insert(
                    self.list_key.clone(),
                    CacheVal::List(ListCacheVal { list, block_queue }),
                );
                if timed_out {
                    Some(create_null_bulk_string_resp())
                } else {
                    None
                }
            },
        }
    }
}

} // verus!
