//! TYPE

use super::{ascii, bytes_of, Outcome, RedisCommand};
use crate::redis::client::{CacheVal, Value};
use crate::redis::instance::{Instance, State};
use crate::redis::store::{live, Table};
use crate::resp::{create_simple_string_resp, simple_string_wire};
use vstd::prelude::*;

verus! {

/// TYPE: replies the kind of value under a key.
pub struct TypeCommand {
    pub key: Vec<u8>,
}

/// The reply to TYPE.
pub open spec fn type_reply(table: Table, key: Seq<u8>, now: u128) -> Seq<u8> {
    match live(table, key, now) {
        Some(Value::String { .. }) => simple_string_wire(ascii("string")),
        Some(Value::List { .. }) => simple_string_wire(ascii("list")),
        Some(Value::Stream { .. }) => simple_string_wire(ascii("stream")),
        None => simple_string_wire(ascii("none")),
    }
}

/// What TYPE gives.
pub open spec fn type_outcome(before: State, key: Seq<u8>, now: u128) -> Outcome {
    Outcome { state: before, reply: Some(type_reply(before.table, key, now)) }
}

impl TypeCommand {
    pub fn new(key: Vec<u8>) -> (c: Self)
        ensures
            c.key == key,
    {
        TypeCommand { key }
    }
}

impl RedisCommand for TypeCommand {
    open spec fn outcome(&self, before: State, now: u128) -> Outcome {
        type_outcome(before, self.key@, now)
    }

    fn execute(&self, instance: &mut Instance, now: u128) -> (reply: Option<Vec<u8>>) {
        match instance.cache.get(self.key.as_slice()) {
            Some(CacheVal::String(v)) => {
                let present = match v.expiry_time {
                    Some(at) => now < at,
                    None => true,
                };
                if present {
                    Some(create_simple_string_resp(bytes_of("string")))
                } else {
                    Some(create_simple_string_resp(bytes_of("none")))
                }
            },
            Some(CacheVal::List(_)) => Some(create_simple_string_resp(bytes_of("list"))),
            Some(CacheVal::Stream(_)) => Some(create_simple_string_resp(bytes_of("stream"))),
            None => Some(create_simple_string_resp(bytes_of("none"))),
        }
    }
}

} // verus!
