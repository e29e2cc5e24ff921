//! GET

use super::{create_text_resp, text_wire, Outcome, RedisCommand};
use crate::redis::client::{CacheVal, Value};
use crate::redis::instance::{Instance, State};
use crate::redis::store::{lemma_put, live, lookup, put, table_wf, Table};
use crate::resp::{create_null_bulk_string_resp, null_bulk_string_wire};
use vstd::prelude::*;

verus! {

/// GET: replies the string under a key, or the null bulk string where
/// the key holds none that a client can see.
pub struct GetCommand {
    pub key: Vec<u8>,
}

/// The reply to GET.
pub open spec fn get_reply(table: Table, key: Seq<u8>, now: u128) -> Seq<u8> {
    match live(table, key, now) {
        Some(Value::String { val, .. }) => text_wire(val),
        _ => null_bulk_string_wire(),
    }
}

/// What GET gives.
pub open spec fn get_outcome(before: State, key: Seq<u8>, now: u128) -> Outcome {
    Outcome { state: before, reply: Some(get_reply(before.table, key, now)) }
}

impl GetCommand {
    pub fn new(key: Vec<u8>) -> (c: Self)
        ensures
            c.key == key,
    {
        GetCommand { key }
    }
}

impl RedisCommand for GetCommand {
    open spec fn outcome(&self, before: State, now: u128) -> Outcome {
        get_outcome(before, self.key@, now)
    }

    fn execute(&self, instance: &mut Instance, now: u128) -> (reply: Option<Vec<u8>>) {
        match instance.cache.get(self.key.as_slice()) {
            Some(CacheVal::String(v)) => {
                let present = match v.expiry_time {
                    Some(at) => now < at,
                    None => true,
                };
                if present {
                    Some(create_text_resp(&v.val))
                } else {
                    Some(create_null_bulk_string_resp())
                }
            },
            _ => Some(create_null_bulk_string_resp()),
        }
    }
}

/// Once the expiry of a string has passed, GET replies the null bulk
/// string, at that time and at every later one, for as long as the key
/// holds that string.
pub proof fn law_expired_string_stays_absent(
    table: Table,
    key: Seq<u8>,
    val: Seq<u8>,
    at: u128,
    now: u128,
    later: u128,
)
    requires
        lookup(table, key) == Some(Value::String { val, expiry: Some(at) }),
        at <= now <= later,
    ensures
        get_reply(table, key, now) == null_bulk_string_wire(),
        get_reply(table, key, later) == null_bulk_string_wire(),
{
}

/// GET changes nothing.
pub proof fn law_get_reads_only(before: State, key: Seq<u8>, now: u128)
    ensures
        get_outcome(before, key, now).state == before,
{
}

/// A key that has been set anew is there again: after SET without a
/// lifetime GET replies the value, whatever the key held before and
/// whatever the time.
pub proof fn law_set_brings_back(table: Table, key: Seq<u8>, val: Seq<u8>, now: u128)
    requires
        table_wf(table),
    ensures
        get_reply(put(table, key, Value::String { val, expiry: None }), key, now) == text_wire(
            val,
        ),
{
    lemma_put(table, key, Value::String { val, expiry: None });
}

} // verus!
