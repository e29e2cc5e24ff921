//! LLEN

use super::{Outcome, RedisCommand};
use crate::redis::client::{CacheVal, Value};
use crate::redis::instance::{Instance, State};
use crate::redis::store::{live, Table};
use crate::resp::{create_len_resp, int_wire};
use vstd::prelude::*;

verus! {

/// LLEN: replies the length of a list, 0 where the key holds none.
pub struct LlenCommand {
    pub list_key: Vec<u8>,
}

/// The reply to LLEN.
pub open spec fn llen_reply(table: Table, key: Seq<u8>, now: u128) -> Seq<u8> {
    match live(table, key, now) {
        Some(Value::List { items, .. }) => int_wire(items.len() as int),
        _ => int_wire(0),
    }
}

/// What LLEN gives.
pub open spec fn llen_outcome(before: State, key: Seq<u8>, now: u128) -> Outcome {
    Outcome { state: before, reply: Some(llen_reply(before.table, key, now)) }
}

impl LlenCommand {
    pub fn new(list_key: Vec<u8>) -> (c: Self)
        ensures
            c.list_key == list_key,
    {
        LlenCommand { list_key }
    }
}

impl RedisCommand for LlenCommand {
    open spec fn outcome(&self, before: State, now: u128) -> Outcome {
        llen_outcome(before, self.list_key@, now)
    }

    fn execute(&self, instance: &mut Instance, now: u128) -> (reply: Option<Vec<u8>>) {
        match instance.cache.get(self.list_key.as_slice()) {
            Some(CacheVal::List(v)) => Some(create_len_resp(v.list.len())),
            _ => Some(create_len_resp(0)),
        }
    }
}

} // verus!
