//! INCR

use super::{ascii, bytes_of, with_table, Outcome, RedisCommand};
use crate::redis::client::{CacheVal, StringCacheVal, Value};
use crate::redis::instance::{Instance, State};
use crate::redis::store::{lemma_put, live, put, table_wf, Table};
use crate::resp::decimal::{decimal_text, i64_value, parse_i64, push_int};
use crate::resp::{create_basic_err_resp, create_int_resp, error_wire, int_wire};
use vstd::prelude::*;

verus! {

/// INCR: adds one to the number that a string denotes; a key without a
/// value counts as 0.
pub struct IncrCommand {
    pub key: Vec<u8>,
}

/// The error of INCR on what is no 64-bit signed numeral, or on the
/// largest one.
pub open spec fn not_an_integer_wire() -> Seq<u8> {
    error_wire(ascii("ERR value is not an integer or out of range"))
}

/// The table after INCR, with the reply.
pub open spec fn incr_result(table: Table, key: Seq<u8>, now: u128) -> (Table, Seq<u8>) {
    match live(table, key, now) {
        None => (
            put(table, key, Value::String { val: decimal_text(1), expiry: None }),
            int_wire(1),
        ),
        Some(Value::String { val, expiry }) => match i64_value(val) {
            Some(n) => if n < i64::MAX {
                (
                    put(table, key, Value::String { val: decimal_text(n + 1), expiry }),
                    int_wire(n + 1),
                )
            } else {
                (table, not_an_integer_wire())
            },
            None => (table, not_an_integer_wire()),
        },
        Some(_) => (table, not_an_integer_wire()),
    }
}

/// What INCR gives.
pub open spec fn incr_outcome(before: State, key: Seq<u8>, now: u128) -> Outcome {
    let (table, reply) = incr_result(before.table, key, now);
    Outcome { state: with_table(before, table), reply: Some(reply) }
}

impl IncrCommand {
    pub fn new(key: Vec<u8>) -> (c: Self)
        ensures
            c.key == key,
    {
        IncrCommand { key }
    }
}

impl RedisCommand for IncrCommand {
    open spec fn outcome(&self, before: State, now: u128) -> Outcome {
        incr_outcome(before, self.key@, now)
    }

    fn execute(&self, instance: &mut Instance, now: u128) -> (reply: Option<Vec<u8>>) {
        let (new_val, expiry_time): (i64, Option<u128>) = match instance.cache.live_position(
            self.key.as_slice(),
            now,
        ) {
            None => (1, None),
            Some(i) => match &instance.cache.slots[i].val {
                CacheVal::String(v) => match parse_i64(v.val.as_slice()) {
                    Some(n) => if n < i64::MAX {
                        (n + 1, v.expiry_time)
                    } else {
                        return Some(
                            create_basic_err_resp(
                                bytes_of("ERR value is not an integer or out of range"),
                            ),
                        );
                    },
                    None => {
                        return Some(
                            create_basic_err_resp(
                                bytes_of("ERR value is not an integer or out of range"),
                            ),
                        );
                    },
                },
                _ => {
                    return Some(
                        create_basic_err_resp(
                            bytes_of("ERR value is not an integer or out of range"),
                        ),
                    );
                },
            },
        };
        let mut val: Vec<u8> = Vec::new();
        push_int(&mut val, new_val);
        assert(val@ =~= decimal_text(new_val as int));
        instance.cache.insert(
            self.key.clone(),
            CacheVal::String(StringCacheVal { val, expiry_time }),
        );
        Some(create_int_resp(new_val))
    }
}

/// INCR and then GET: where the key holds the numeral of `n` and `n` is
/// below the largest 64-bit signed integer, INCR replies `n + 1` and GET
/// then replies the numeral of `n + 1`, which reads back as `n + 1`.
/// Where `n` is the largest one, INCR replies the error and changes
/// nothing.
pub proof fn law_incr_then_get(
    table: Table,
    key: Seq<u8>,
    val: Seq<u8>,
    expiry: Option<u128>,
    n: i64,
    now: u128,
)
    requires
        table_wf(table),
        live(table, key, now) == Some(Value::String { val, expiry }),
        i64_value(val) == Some(n),
    ensures
        n < i64::MAX ==> incr_result(table, key, now).1 == int_wire(n + 1),
        n < i64::MAX ==> super::get::get_reply(incr_result(table, key, now).0, key, now)
            == crate::resp::simple_string_wire(decimal_text(n + 1)),
        n < i64::MAX ==> i64_value(decimal_text(n + 1)) == Some((n + 1) as i64),
        n == i64::MAX ==> incr_result(table, key, now) == (table, not_an_integer_wire()),
{
    if n < i64::MAX {
        let next = Value::String { val: decimal_text(n + 1), expiry };
        lemma_put(table, key, next);
        crate::resp::decimal::lemma_decimal_round_trip(n + 1);
        crate::resp::wire::lemma_numeral_is_line_text(n + 1);
    }
}

} // verus!
