//! SET

use super::{add_time, create_ok_resp, ok_wire, time_after, with_table, Outcome, RedisCommand};
use crate::redis::client::{CacheVal, StringCacheVal, Value};
use crate::redis::instance::{Instance, State};
use crate::redis::store::put;
use vstd::prelude::*;

verus! {

/// SET: writes a string, with an expiry where a lifetime in milliseconds
/// is given.
pub struct SetCommand {
    pub key: Vec<u8>,
    pub value: Vec<u8>,
    pub expiration: Option<u128>,
}

/// The expiry of a string that is written at time `now`.
pub open spec fn expiry_at(expiration: Option<u128>, now: u128) -> Option<u128> {
    match expiration {
        Some(ms) => Some(time_after(now, ms)),
        None => None,
    }
}

/// What SET gives.
pub open spec fn set_outcome(
    before: State,
    key: Seq<u8>,
    value: Seq<u8>,
    expiration: Option<u128>,
    now: u128,
) -> Outcome {
    Outcome {
        state: with_table(
            before,
            put(
                before.table,
                key,
                Value::String { val: value, expiry: expiry_at(expiration, now) },
            ),
        ),
        reply: Some(ok_wire()),
    }
}

impl SetCommand {
    pub fn new(key: Vec<u8>, value: Vec<u8>, expiration: Option<u128>) -> (c: Self)
        ensures
            c.key == key,
            c.value == value,
            c.expiration == expiration,
    {
        SetCommand { key, value, expiration }
    }
}

impl RedisCommand for SetCommand {
    open spec fn outcome(&self, before: State, now: u128) -> Outcome {
        set_outcome(before, self.key@, self.value@, self.expiration, now)
    }

    fn execute(&self, instance: &mut Instance, now: u128) -> (reply: Option<Vec<u8>>) {
        let expiry_time = match self.expiration {
            Some(ms) => Some(add_time(now, ms)),
            None => None,
        };
        instance.cache.insert(
            self.key.clone(),
            CacheVal::String(StringCacheVal { val: self.value.clone(), expiry_time }),
        );
        Some(create_ok_resp())
    }
}

} // verus!
