//! LRANGE

use super::{bulks, create_bulk_array_resp, Outcome, RedisCommand};
use crate::redis::client::{CacheVal, Value};
use crate::redis::instance::{Instance, State};
use crate::redis::store::{live, Table};
use crate::resp::{array_wire, create_array_resp};
use vstd::prelude::*;

verus! {

/// LRANGE: replies the items of a list between two positions, both
/// included. A negative position counts from the end, -1 being the last
/// item.
pub struct LrangeCommand {
    pub list_key: Vec<u8>,
    pub start: i64,
    pub end: i64,
}

/// The positions `from..to` that LRANGE replies of a list of `len` items.
pub open spec fn lrange_span(len: int, start: int, end: int) -> (int, int) {
    let first = if start < 0 {
        start + len
    } else {
        start
    };
    let last = if end < 0 {
        end + len
    } else {
        end
    };
    let first = if first < 0 {
        0
    } else {
        first
    };
    let last = if last >= len {
        len - 1
    } else {
        last
    };
    if first >= len || first > last {
        (0, 0)
    } else {
        (first, last + 1)
    }
}

/// The reply to LRANGE.
pub open spec fn lrange_reply(table: Table, key: Seq<u8>, start: i64, end: i64, now: u128) -> Seq<
    u8,
> {
    match live(table, key, now) {
        Some(Value::List { items, .. }) => {
            let (from, to) = lrange_span(items.len() as int, start as int, end as int);
            array_wire(bulks(items.subrange(from, to)))
        },
        _ => array_wire(Seq::empty()),
    }
}

/// What LRANGE gives.
pub open spec fn lrange_outcome(
    before: State,
    key: Seq<u8>,
    start: i64,
    end: i64,
    now: u128,
) -> Outcome {
    Outcome { state: before, reply: Some(lrange_reply(before.table, key, start, end, now)) }
}

impl LrangeCommand {
    pub fn new(list_key: Vec<u8>, start: i64, end: i64) -> (c: Self)
        ensures
            c.list_key == list_key,
            c.start == start,
            c.end == end,
    {
        LrangeCommand { list_key, start, end }
    }
}

impl RedisCommand for LrangeCommand {
    open spec fn outcome(&self, before: State, now: u128) -> Outcome {
        lrange_outcome(before, self.list_key@, self.start, self.end, now)
    }

    fn execute(&self, instance: &mut Instance, now: u128) -> (reply: Option<Vec<u8>>) {
        match instance.cache.get(self.list_key.as_slice()) {
            Some(CacheVal::List(l)) => {
                let len: i128 = l.list.len() as i128;
                let mut first: i128 = if self.start < 0 {
                    self.start as i128 + len
                } else {
                    self.start as i128
                };
                let mut last: i128 = if self.end < 0 {
                    self.end as i128 + len
                } else {
                    self.end as i128
                };
                if first < 0 {
                    first = 0;
                }
                if last >= len {
                    last = len - 1;
                }
                if first >= len || first > last {
                    let out = create_bulk_array_resp(&l.list, 0, 0);
                    Some(out)
                } else {
                    Some(create_bulk_array_resp(&l.list, first as usize, (last + 1) as usize))
                }
            },
            _ => {
                let none: Vec<Vec<u8>> = Vec::new();
                assert(crate::resp::views(none@) =~= Seq::<Seq<u8>>::empty());
                Some(create_array_resp(none))
            },
        }
    }
}

} // verus!
