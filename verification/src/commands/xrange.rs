//! XRANGE

use super::{create_wrong_type_resp, wrong_type_wire, Outcome, RedisCommand};
use crate::redis::client::{entries_of, CacheVal, Entry, StreamItem, Value};
use crate::redis::instance::{Instance, State};
use crate::redis::store::{live, Table};
use crate::redis::stream_id::StreamId;
use crate::resp::{
    array_wire, bulk_string_wire, create_array_resp, create_bulk_string_resp, views,
};
use vstd::prelude::*;

verus! {

/// XRANGE: replies the entries of a stream whose ids lie between two
/// bounds, both included.
pub struct XrangeCommand {
    pub stream_key: Vec<u8>,
    /// The lower bound; `None` stands for `-`, the start of the stream.
    pub start_id: Option<StreamId>,
    /// The upper bound; `None` stands for `+`, the end of the stream.
    pub end_id: Option<StreamId>,
}

/// The entries whose ids a predicate accepts, in their order.
pub open spec fn selected(entries: Seq<Entry>, keep: spec_fn(StreamId) -> bool) -> Seq<Entry>
    decreases entries.len(),
{
    if entries.len() == 0 {
        Seq::empty()
    } else if keep(entries.last().id) {
        selected(entries.drop_last(), keep).push(entries.last())
    } else {
        selected(entries.drop_last(), keep)
    }
}

/// Whether an id lies between two bounds, both included.
pub open spec fn between(id: StreamId, start: Option<StreamId>, end: Option<StreamId>) -> bool {
    &&& start matches Some(low) ==> !id.lt(low)
    &&& end matches Some(high) ==> !high.lt(id)
}

/// The fields of an entry, each name followed by its value, as bulk
/// strings.
pub open spec fn field_wires(fields: Seq<(Seq<u8>, Seq<u8>)>) -> Seq<Seq<u8>> {
    Seq::new(
        2 * fields.len(),
        |i: int|
            if i % 2 == 0 {
                bulk_string_wire(fields[i / 2].0)
            } else {
                bulk_string_wire(fields[i / 2].1)
            },
    )
}

/// An entry as a reply: the pair of its id and the array of its fields.
pub open spec fn entry_wire(entry: Entry) -> Seq<u8> {
    array_wire(seq![bulk_string_wire(entry.id.text()), array_wire(field_wires(entry.fields))])
}

/// Each entry as a reply.
pub open spec fn entry_wires(entries: Seq<Entry>) -> Seq<Seq<u8>> {
    Seq::new(entries.len(), |i: int| entry_wire(entries[i]))
}

/// The reply to XRANGE.
pub open spec fn xrange_reply(
    table: Table,
    key: Seq<u8>,
    start: Option<StreamId>,
    end: Option<StreamId>,
    now: u128,
) -> Seq<u8> {
    match live(table, key, now) {
        Some(Value::Stream { entries }) => array_wire(
            entry_wires(selected(entries, |id: StreamId| between(id, start, end))),
        ),
        None => array_wire(Seq::empty()),
        Some(_) => wrong_type_wire(),
    }
}

/// Encodes an entry as a reply.
pub fn create_entry_resp(item: &StreamItem) -> (out: Vec<u8>)
    ensures
        out@ == entry_wire(item@),
{
    let mut fields: Vec<Vec<u8>> = Vec::new();
    let mut i: usize = 0;
    while i < item.key_vals.len()
        invariant
            i <= item.key_vals.len(),
            fields.len() == 2 * i,
            forall|j: int|
                0 <= j < 2 * i ==> (#[trigger] fields[j])@ == field_wires(item@.fields)[j],
        decreases item.key_vals.len() - i,
    {
        fields.push(create_bulk_string_resp(item.key_vals[i].key.clone()));
        fields.push(create_bulk_string_resp(item.key_vals[i].val.clone()));
        i = i + 1;
    }
    assert(views(fields@) =~= field_wires(item@.fields));
    let mut pair: Vec<Vec<u8>> = Vec::new();
    pair.push(create_bulk_string_resp(item.id.to_text()));
    pair.push(create_array_resp(fields));
    assert(views(pair@) =~= seq![
        bulk_string_wire(item@.id.text()),
        array_wire(field_wires(item@.fields)),
    ]);
    create_array_resp(pair)
}

/// What XRANGE gives.
pub open spec fn xrange_outcome(
    before: State,
    key: Seq<u8>,
    start: Option<StreamId>,
    end: Option<StreamId>,
    now: u128,
) -> Outcome {
    Outcome { state: before, reply: Some(xrange_reply(before.table, key, start, end, now)) }
}

impl XrangeCommand {
    pub fn new(stream_key: Vec<u8>, start_id: Option<StreamId>, end_id: Option<StreamId>) -> (c:
        Self)
        ensures
            c.stream_key == stream_key,
            c.start_id == start_id,
            c.end_id == end_id,
    {
        XrangeCommand { stream_key, start_id, end_id }
    }

    /// Whether `id` lies between the bounds of the command.
    fn keeps(&self, id: &StreamId) -> (b: bool)
        ensures
            b == between(*id, self.start_id, self.end_id),
    {
        let above = match &self.start_id {
            Some(low) => !id.less_than(low),
            None => true,
        };
        let below = match &self.end_id {
            Some(high) => !high.less_than(id),
            None => true,
        };
        above && below
    }
}

impl RedisCommand for XrangeCommand {
    open spec fn outcome(&self, before: State, now: u128) -> Outcome {
        xrange_outcome(before, self.stream_key@, self.start_id, self.end_id, now)
    }

    fn execute(&self, instance: &mut Instance, now: u128) -> (reply: Option<Vec<u8>>) {
        match instance.cache.live_position(self.stream_key.as_slice(), now) {
            Some(i) => match &instance.cache.slots[i].val {
                CacheVal::Stream(s) => {
                    let ghost keep = |id: StreamId| between(id, self.start_id, self.end_id);
                    let ghost entries = entries_of(s.stream@);
                    let mut found: Vec<Vec<u8>> = Vec::new();
                    let mut k: usize = 0;
                    while k < s.stream.len()
                        invariant
                            k <= s.stream.len(),
                            entries == entries_of(s.stream@),
                            keep == |id: StreamId| between(id, self.start_id, self.end_id),
                            views(found@) =~= entry_wires(
                                selected(entries.subrange(0, k as int), keep),
                            ),
                        decreases s.stream.len() - k,
                    {
                        proof {
                            let next = entries.subrange(0, k + 1);
                            assert(next.drop_last() =~= entries.subrange(0, k as int));
                            assert(next.last() == s.stream[k as int]@);
                        }
                        if self.keeps(&s.stream[k].id) {
                            let ghost before = found@;
                            let ghost chosen = selected(entries.subrange(0, k as int), keep);
                            found.push(create_entry_resp(&s.stream[k]));
                            assert(views(found@) =~= views(before).push(found@[found.len() - 1]@));
                            assert(entry_wires(chosen.push(s.stream[k as int]@)) =~= entry_wires(
                                chosen,
                            ).push(entry_wire(s.stream[k as int]@)));
                        }
                        k = k + 1;
                    }
                    assert(entries.subrange(0, entries.len() as int) =~= entries);
                    Some(create_array_resp(found))
                },
                _ => Some(create_wrong_type_resp()),
            },
            None => {
                let none: Vec<Vec<u8>> = Vec::new();
                assert(views(none@) =~= Seq::<Seq<u8>>::empty());
                Some(create_array_resp(none))
            },
        }
    }
}

} // verus!
