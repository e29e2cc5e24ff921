//! XREAD

use super::xrange::{create_entry_resp, entry_wire, entry_wires, selected};
use super::{passed, Deadline, Outcome, RedisCommand};
use crate::redis::client::{entries_of, CacheVal, Value};
use crate::redis::instance::{Instance, State};
use crate::redis::store::{live, Store, Table};
use crate::redis::stream_id::StreamId;
use crate::resp::{
    array_wire, bulk_string_wire, create_array_resp, create_bulk_string_resp,
    create_null_bulk_string_resp, null_bulk_string_wire, views,
};
use vstd::prelude::*;

verus! {

/// A stream with the id behind which it is to be read.
#[derive(Debug)]
pub struct StreamCursor {
    pub key: Vec<u8>,
    pub after: StreamId,
}

/// XREAD: replies, for each stream that has any, the entries with an id
/// above the one given for it. Where no stream has any, the command
/// waits until its deadline and then gets the null bulk string.
pub struct XreadCommand {
    pub streams: Vec<StreamCursor>,
    pub deadline: Deadline,
}

/// The cursors that a list of cursors stands for.
pub open spec fn cursors_of(streams: Seq<StreamCursor>) -> Seq<(Seq<u8>, StreamId)> {
    Seq::new(streams.len(), |i: int| (streams[i].key@, streams[i].after))
}

/// What XREAD replies of one stream: the pair of the key and its entries
/// above `after`, where there are any.
pub open spec fn stream_reply(table: Table, key: Seq<u8>, after: StreamId, now: u128) -> Option<
    Seq<u8>,
> {
    match live(table, key, now) {
        Some(Value::Stream { entries }) => {
            let found = selected(entries, |id: StreamId| after.lt(id));
            if found.len() > 0 {
                Some(array_wire(seq![bulk_string_wire(key), array_wire(entry_wires(found))]))
            } else {
                None
            }
        },
        _ => None,
    }
}

/// What XREAD replies of the streams that have entries, in the order in
/// which the command names them.
pub open spec fn xread_found(table: Table, cursors: Seq<(Seq<u8>, StreamId)>, now: u128) -> Seq<
    Seq<u8>,
>
    decreases cursors.len(),
{
    if cursors.len() == 0 {
        Seq::empty()
    } else {
        let rest = xread_found(table, cursors.drop_last(), now);
        match stream_reply(table, cursors.last().0, cursors.last().1, now) {
            Some(reply) => rest.push(reply),
            None => rest,
        }
    }
}

/// The reply of one attempt of XREAD, where the attempt ends the command.
pub open spec fn xread_reply(
    table: Table,
    cursors: Seq<(Seq<u8>, StreamId)>,
    deadline: Deadline,
    now: u128,
) -> Option<Seq<u8>> {
    let found = xread_found(table, cursors, now);
    if found.len() > 0 {
        Some(array_wire(found))
    } else if passed(deadline, now) {
        Some(null_bulk_string_wire())
    } else {
        None
    }
}

/// Reads one stream behind a cursor.
pub fn read_stream(store: &Store, cursor: &StreamCursor, now: u128) -> (r: Option<Vec<u8>>)
    requires
        store.wf(),
    ensures
        super::reply_bytes(r) == stream_reply(store@, cursor.key@, cursor.after, now),
{
    match store.live_position(cursor.key.as_slice(), now) {
        Some(i) => match &store.slots[i].val {
            CacheVal::Stream(s) => {
                let ghost keep = |id: StreamId| cursor.after.lt(id);
                let ghost entries = entries_of(s.stream@);
                let mut found: Vec<Vec<u8>> = Vec::new();
                let mut k: usize = 0;
                while k < s.stream.len()
                    invariant
                        k <= s.stream.len(),
                        entries == entries_of(s.stream@),
                        keep == |id: StreamId| cursor.after.lt(id),
                        views(found@) =~= entry_wires(
                            selected(entries.subrange(0, k as int), keep),
                        ),
                    decreases s.stream.len() - k,
                {
                    proof {
                        let next = entries.subrange(0, k + 1);
                        assert(next.drop_last() =~= entries.subrange(0, k as int));
                        assert(next.last() == s.stream[k as int]@);
                    }
                    if cursor.after.less_than(&s.stream[k].id) {
                        let ghost before = found@;
                        let ghost chosen = selected(entries.subrange(0, k as int), keep);
                        found.push(create_entry_resp(&s.stream[k]));
                        assert(views(found@) =~= views(before).push(found@[found.len() - 1]@));
                        assert(entry_wires(chosen.push(s.stream[k as int]@)) =~= entry_wires(
                            chosen,
                        ).push(entry_wire(s.stream[k as int]@)));
                    }
                    k = k + 1;
                }
                assert(entries.subrange(0, entries.len() as int) =~= entries);
                if found.len() > 0 {
                    let mut pair: Vec<Vec<u8>> = Vec::new();
                    pair.push(create_bulk_string_resp(cursor.key.clone()));
                    pair.push(create_array_resp(found));
                    assert(views(pair@) =~= seq![
                        bulk_string_wire(cursor.key@),
                        array_wire(entry_wires(selected(entries, keep))),
                    ]);
                    Some(create_array_resp(pair))
                } else {
                    None
                }
            },
            _ => None,
        },
        None => None,
    }
}

/// What one attempt of XREAD gives.
pub open spec fn xread_outcome(
    before: State,
    cursors: Seq<(Seq<u8>, StreamId)>,
    deadline: Deadline,
    now: u128,
) -> Outcome {
    Outcome { state: before, reply: xread_reply(before.table, cursors, deadline, now) }
}

impl XreadCommand {
    pub fn new(streams: Vec<StreamCursor>, deadline: Deadline) -> (c: Self)
        ensures
            c.streams == streams,
            c.deadline == deadline,
    {
        XreadCommand { streams, deadline }
    }
}

impl RedisCommand for XreadCommand {
    open spec fn outcome(&self, before: State, now: u128) -> Outcome {
        xread_outcome(before, cursors_of(self.streams@), self.deadline, now)
    }

    fn execute(&self, instance: &mut Instance, now: u128) -> (reply: Option<Vec<u8>>) {
        let ghost cursors = cursors_of(self.streams@);
        let mut found: Vec<Vec<u8>> = Vec::new();
        let mut i: usize = 0;
        while i < self.streams.len()
            invariant
                i <= self.streams.len(),
                instance.cache.wf(),
                cursors == cursors_of(self.streams@),
                views(found@) =~= xread_found(instance.cache@, cursors.subrange(0, i as int), now),
            decreases self.streams.len() - i,
        {
            proof {
                let next = cursors.subrange(0, i + 1);
                assert(next.drop_last() =~= cursors.subrange(0, i as int));
                assert(next.last() == cursors[i as int]);
            }
            match read_stream(&instance.cache, &self.streams[i], now) {
                Some(reply) => {
                    let ghost before = found@;
                    found.push(reply);
                    assert(views(found@) =~= views(before).push(found@[found.len() - 1]@));
                },
                None => {},
            }
            i = i + 1;
        }
        assert(cursors.subrange(0, cursors.len() as int) =~= cursors);
        if found.len() > 0 {
            Some(create_array_resp(found))
        } else {
            if self.deadline.has_passed(now) {
                Some(create_null_bulk_string_resp())
            } else {
                None
            }
        }
    }
}

} // verus!
