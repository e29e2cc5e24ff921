//! RPUSH

use super::{
    append_copies, create_wrong_type_resp, with_table, wrong_type_wire, Outcome, RedisCommand,
};
use crate::redis::client::{CacheVal, ListCacheVal, Value};
use crate::redis::instance::{Instance, State};
use crate::redis::store::{lemma_update, live, put, Table};
use crate::resp::{create_len_resp, int_wire, views};
use vstd::prelude::*;

verus! {

/// RPUSH: appends values to a list, which it makes where the key holds
/// nothing.
pub struct RpushCommand {
    pub list_key: Vec<u8>,
    pub values: Vec<Vec<u8>>,
}

/// The table after RPUSH, with the reply.
pub open spec fn rpush_result(table: Table, key: Seq<u8>, values: Seq<Seq<u8>>, now: u128) -> (
    Table,
    Seq<u8>,
) {
    match live(table, key, now) {
        None => (
            put(table, key, Value::List { items: values, waiters: Seq::empty() }),
            int_wire(values.len() as int),
        ),
        Some(Value::List { items, waiters }) => (
            put(table, key, Value::List { items: items + values, waiters }),
            int_wire((items + values).len() as int),
        ),
        Some(_) => (table, wrong_type_wire()),
    }
}

/// What RPUSH gives.
pub open spec fn rpush_outcome(
    before: State,
    key: Seq<u8>,
    values: Seq<Seq<u8>>,
    now: u128,
) -> Outcome {
    let (table, reply) = rpush_result(before.table, key, values, now);
    Outcome { state: with_table(before, table), reply: Some(reply) }
}

impl RpushCommand {
    pub fn new(list_key: Vec<u8>, values: Vec<Vec<u8>>) -> (c: Self)
        ensures
            c.list_key == list_key,
            c.values == values,
    {
        RpushCommand { list_key, values }
    }
}

impl RedisCommand for RpushCommand {
    open spec fn outcome(&self, before: State, now: u128) -> Outcome {
        rpush_outcome(before, self.list_key@, views(self.values@), now)
    }

    fn execute(&self, instance: &mut Instance, now: u128) -> (reply: Option<Vec<u8>>) {
        match instance.cache.live_position(self.list_key.as_slice(), now) {
            Some(i) => {
                if !instance.cache.is_list(i) {
                    return Some(create_wrong_type_resp());
                }
                let l = instance.cache.list_mut(i);
                append_copies(&mut l.list, &self.values);
                let len = l.list.len();
                proof {
                    let before = old(instance).cache@;
                    let value = Value::List {
                        items: before[i as int].1->items + views(self.values@),
                        waiters: before[i as int].1->waiters,
                    };
                    lemma_update(before, i as int, value);
                    assert(instance.cache@ =~= before.update(i as int, (self.list_key@, value)));
                }
                Some(create_len_resp(len))
            },
            None => {
                let mut list: Vec<Vec<u8>> = Vec::new();
                append_copies(&mut list, &self.values);
                assert(views(list@) =~= views(self.values@));
                let len = list.len();
                let block_queue: Vec<Vec<u8>> = Vec::new();
                assert(views(block_queue@) =~= Seq::<Seq<u8>>::empty());
                instance.cache.insert(
                    self.list_key.clone(),
                    CacheVal::List(ListCacheVal { list, block_queue }),
                );
                Some(create_len_resp(len))
            },
        }
    }
}

} // verus!
