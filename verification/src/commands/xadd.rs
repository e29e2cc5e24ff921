//! XADD

use super::{
    ascii, bytes_of, create_wrong_type_resp, with_table, wrong_type_wire, Outcome, RedisCommand,
};
use crate::redis::client::{
    entries_of, ids_increase, CacheVal, Entry, KeyVal, StreamCacheVal, StreamItem, Value,
};
use crate::redis::instance::{Instance, State};
use crate::redis::store::{lemma_update, live, put, Table};
use crate::redis::stream_id::StreamId;
use crate::resp::decimal::{find_first, first_of, numeral_value, parse_digits};
use crate::resp::{bulk_string_wire, create_basic_err_resp, create_bulk_string_resp, error_wire};
use vstd::prelude::*;
use vstd::slice::slice_subrange;

verus! {

/// The id that a new entry asks for.
#[derive(Debug, Clone, Copy, PartialEq, Eq, Structural)]
pub enum EntryId {
    /// `*`: the current time, with the next free sequence number.
    Auto,
    /// `<ms>-*`: the given time, with the next free sequence number.
    Partial(u128),
    /// `<ms>-<seq>`: the id as it stands.
    Explicit(StreamId),
}

impl EntryId {
    /// The request that a text denotes.
    pub open spec fn from_text(s: Seq<u8>) -> Option<EntryId> {
        if s == seq![42u8] {
            Some(EntryId::Auto)
        } else {
            let dash = first_of(s, 45, 0);
            if dash + 2 == s.len() && s[dash + 1] == 42 {
                match numeral_value(s.subrange(0, dash)) {
                    Some(ms) => if ms <= u128::MAX {
                        Some(EntryId::Partial(ms as u128))
                    } else {
                        None
                    },
                    None => None,
                }
            } else {
                match StreamId::from_text(s) {
                    Some(id) => Some(EntryId::Explicit(id)),
                    None => None,
                }
            }
        }
    }

    /// Reads a request: `*`, `<ms>-*` or `<ms>-<seq>`.
    pub fn parse(s: &[u8]) -> (r: Option<EntryId>)
        ensures
            r == EntryId::from_text(s@),
    {
        if s.len() == 1 && s[0] == 42 {
            assert(s@ =~= seq![42u8]);
            return Some(EntryId::Auto);
        }
        let dash = find_first(s, 45);
        if dash < s.len() && s.len() - dash == 2 && s[dash + 1] == 42 {
            match parse_digits(slice_subrange(s, 0, dash)) {
                Some(ms) => Some(EntryId::Partial(ms)),
                None => None,
            }
        } else {
            match StreamId::parse(s) {
                Some(id) => Some(EntryId::Explicit(id)),
                None => None,
            }
        }
    }
}

/// XADD: appends an entry to a stream, which it makes where the key
/// holds nothing.
pub struct XaddCommand {
    pub stream_key: Vec<u8>,
    pub entry_id: EntryId,
    pub fields: Vec<KeyVal>,
}

/// The fields that a list of fields stands for.
pub open spec fn fields_of(fields: Seq<KeyVal>) -> Seq<(Seq<u8>, Seq<u8>)> {
    Seq::new(fields.len(), |i: int| fields[i]@)
}

/// The id with the next free sequence number at time `ms`, behind the
/// last id of a stream. A stream without entries starts at sequence 0,
/// or at 1 where `skip_zero` asks for it and `ms` is 0. There is no next
/// number behind the largest one.
pub open spec fn next_id(ms: u128, last: Option<StreamId>, skip_zero: bool) -> Option<StreamId> {
    match last {
        Some(top) => if top.ms == ms {
            if top.seq < u64::MAX {
                Some(StreamId { ms, seq: (top.seq + 1) as u64 })
            } else {
                None
            }
        } else {
            Some(StreamId { ms, seq: 0 })
        },
        None => Some(
            StreamId {
                ms,
                seq: if skip_zero && ms == 0 {
                    1
                } else {
                    0
                },
            },
        ),
    }
}

/// The id with the next free sequence number at time `ms`.
fn next_after(ms: u128, last: Option<StreamId>, skip_zero: bool) -> (r: Option<StreamId>)
    ensures
        r == next_id(ms, last, skip_zero),
{
    match last {
        Some(top) => if top.ms == ms {
            if top.seq < u64::MAX {
                Some(StreamId { ms, seq: top.seq + 1 })
            } else {
                None
            }
        } else {
            Some(StreamId { ms, seq: 0 })
        },
        None => Some(
            StreamId {
                ms,
                seq: if skip_zero && ms == 0 {
                    1
                } else {
                    0
                },
            },
        ),
    }
}

/// The id that a request stands for at time `now`, behind the last id of
/// a stream.
pub open spec fn resolve_id(id: EntryId, last: Option<StreamId>, now: u128) -> Option<StreamId> {
    match id {
        EntryId::Auto => next_id(now, last, false),
        EntryId::Partial(ms) => next_id(ms, last, true),
        EntryId::Explicit(id) => Some(id),
    }
}

/// The last id of a stream.
pub open spec fn last_id(entries: Seq<Entry>) -> Option<StreamId> {
    if entries.len() > 0 {
        Some(entries.last().id)
    } else {
        None
    }
}

/// The error of an id `0-0`.
pub open spec fn zero_id_wire() -> Seq<u8> {
    error_wire(ascii("ERR The ID specified in XADD must be greater than 0-0"))
}

/// The error of an id that is not above the last id of the stream.
pub open spec fn low_id_wire() -> Seq<u8> {
    error_wire(
        ascii(
            "ERR The ID specified in XADD is equal or smaller than the target stream top item",
        ),
    )
}

/// Encodes the error of an id `0-0`.
pub fn create_zero_id_resp() -> (out: Vec<u8>)
    ensures
        out@ == zero_id_wire(),
{
    create_basic_err_resp(bytes_of("ERR The ID specified in XADD must be greater than 0-0"))
}

/// Encodes the error of an id that is not above the last id of the
/// stream.
pub fn create_low_id_resp() -> (out: Vec<u8>)
    ensures
        out@ == low_id_wire(),
{
    create_basic_err_resp(
        bytes_of(
            "ERR The ID specified in XADD is equal or smaller than the target stream top item",
        ),
    )
}

/// The id under which XADD appends to a stream, or the error that it
/// replies.
pub open spec fn xadd_id(entries: Seq<Entry>, id: EntryId, now: u128) -> Result<
    StreamId,
    Seq<u8>,
> {
    match resolve_id(id, last_id(entries), now) {
        None => Err(low_id_wire()),
        Some(new) => if new == StreamId::zero() {
            Err(zero_id_wire())
        } else if entries.len() > 0 && !entries.last().id.lt(new) {
            Err(low_id_wire())
        } else {
            Ok(new)
        },
    }
}

/// The table after XADD, with the reply.
pub open spec fn xadd_result(
    table: Table,
    key: Seq<u8>,
    id: EntryId,
    fields: Seq<(Seq<u8>, Seq<u8>)>,
    now: u128,
) -> (Table, Seq<u8>) {
    match live(table, key, now) {
        Some(Value::Stream { entries }) => match xadd_id(entries, id, now) {
            Ok(new) => (
                put(table, key, Value::Stream { entries: entries.push(Entry { id: new, fields }) }),
                bulk_string_wire(new.text()),
            ),
            Err(reply) => (table, reply),
        },
        None => match xadd_id(Seq::empty(), id, now) {
            Ok(new) => (
                put(table, key, Value::Stream { entries: seq![Entry { id: new, fields }] }),
                bulk_string_wire(new.text()),
            ),
            Err(reply) => (table, reply),
        },
        Some(_) => (table, wrong_type_wire()),
    }
}

/// An entry with an id above the last one keeps the ids of a stream
/// increasing.
pub proof fn lemma_push_keeps_order(entries: Seq<Entry>, entry: Entry)
    requires
        ids_increase(entries),
        entry.id != StreamId::zero(),
        entries.len() > 0 ==> entries.last().id.lt(entry.id),
    ensures
        ids_increase(entries.push(entry)),
{
    let more = entries.push(entry);
    assert forall|i: int, j: int| 0 <= i < j < more.len() implies (#[trigger] more[i]).id.lt(
        (#[trigger] more[j]).id,
    ) by {
        if j < entries.len() {
            assert(more[i] == entries[i] && more[j] == entries[j]);
        } else {
            assert(more[i] == entries[i]);
            if i < entries.len() - 1 {
                assert(entries[i].id.lt(entries[entries.len() - 1].id));
            }
        }
    }
    assert forall|i: int| 0 <= i < more.len() implies StreamId::zero().lt(
        #[trigger] more[i].id,
    ) by {
        if i < entries.len() {
            assert(more[i] == entries[i]);
        }
    }
}

/// Copies a list of fields.
pub fn copy_fields(fields: &Vec<KeyVal>) -> (out: Vec<KeyVal>)
    ensures
        fields_of(out@) == fields_of(fields@),
{
    let mut out: Vec<KeyVal> = Vec::new();
    let mut i: usize = 0;
    while i < fields.len()
        invariant
            i <= fields.len(),
            out.len() == i,
            forall|j: int| 0 <= j < i ==> (#[trigger] out[j])@ == fields[j]@,
        decreases fields.len() - i,
    {
        out.push(KeyVal { key: fields[i].key.clone(), val: fields[i].val.clone() });
        i = i + 1;
    }
    assert(fields_of(out@) =~= fields_of(fields@));
    out
}

/// What XADD gives.
pub open spec fn xadd_outcome(
    before: State,
    key: Seq<u8>,
    id: EntryId,
    fields: Seq<(Seq<u8>, Seq<u8>)>,
    now: u128,
) -> Outcome {
    let (table, reply) = xadd_result(before.table, key, id, fields, now);
    Outcome { state: with_table(before, table), reply: Some(reply) }
}

impl XaddCommand {
    pub fn new(stream_key: Vec<u8>, entry_id: EntryId, fields: Vec<KeyVal>) -> (c: Self)
        ensures
            c.stream_key == stream_key,
            c.entry_id == entry_id,
            c.fields == fields,
    {
        XaddCommand { stream_key, entry_id, fields }
    }

    /// The id under which the command appends behind `last`, or the error
    /// that it replies.
    fn pick_id(&self, last: Option<StreamId>, now: u128) -> (r: Result<StreamId, Vec<u8>>)
        ensures
            forall|entries: Seq<Entry>| #[trigger]
                last_id(entries) == last ==> match xadd_id(entries, self.entry_id, now) {
                    Ok(id) => r == Ok::<StreamId, Vec<u8>>(id),
                    Err(reply) => r matches Err(bytes) && bytes@ == reply,
                },
    {
        let resolved: Option<StreamId> = match self.entry_id {
            EntryId::Auto => next_after(now, last, false),
            EntryId::Partial(ms) => next_after(ms, last, true),
            EntryId::Explicit(id) => Some(id),
        };
        match resolved {
            None => Err(create_low_id_resp()),
            Some(new) => {
                if new.ms == 0 && new.seq == 0 {
                    return Err(create_zero_id_resp());
                }
                match last {
                    Some(top) => if !top.less_than(&new) {
                        return Err(create_low_id_resp());
                    },
                    None => {},
                }
                Ok(new)
            },
        }
    }
}

impl RedisCommand for XaddCommand {
    open spec fn outcome(&self, before: State, now: u128) -> Outcome {
        xadd_outcome(before, self.stream_key@, self.entry_id, fields_of(self.fields@), now)
    }

    fn execute(&self, instance: &mut Instance, now: u128) -> (reply: Option<Vec<u8>>) {
        let ghost before = instance.cache@;
        match instance.cache.live_position(self.stream_key.as_slice(), now) {
            Some(i) => {
                if !instance.cache.is_stream(i) {
                    return Some(create_wrong_type_resp());
                }
                let ghost entries = before[i as int].1->entries;
                let s = instance.cache.stream_mut(i);
                let last = if s.stream.len() > 0 {
                    Some(s.stream[s.stream.len() - 1].id)
                } else {
                    None
                };
                assert(last_id(entries) == last);
                match self.pick_id(last, now) {
                    Ok(id) => {
                        let item = StreamItem { id, key_vals: copy_fields(&self.fields) };
                        proof {
                            assert(item@.fields =~= fields_of(self.fields@));
                        }
                        s.stream.push(item);
                        proof {
                            let entry = Entry { id, fields: fields_of(self.fields@) };
                            let value = Value::Stream { entries: entries.push(entry) };
                            assert(entries_of(s.stream@) =~= entries.push(entry));
                            lemma_push_keeps_order(entries, entry);
                            lemma_update(before, i as int, value);
                            assert(instance.cache@ =~= before.update(
                                i as int,
                                (self.stream_key@, value),
                            ));
                        }
                        Some(create_bulk_string_resp(id.to_text()))
                    },
                    Err(reply) => {
                        assert(instance.cache@ =~= before);
                        Some(reply)
                    },
                }
            },
            None => {
                assert(last_id(Seq::<Entry>::empty()) == None::<StreamId>);
                match self.pick_id(None, now) {
                    Ok(id) => {
                        let item = StreamItem { id, key_vals: copy_fields(&self.fields) };
                        let mut stream: Vec<StreamItem> = Vec::new();
                        proof {
                            assert(item@.fields =~= fields_of(self.fields@));
                        }
                        stream.push(item);
                        proof {
                            let entry = Entry { id, fields: fields_of(self.fields@) };
                            assert(entries_of(stream@) =~= seq![entry]);
                            lemma_push_keeps_order(Seq::empty(), entry);
                            assert(Seq::<Entry>::empty().push(entry) =~= seq![entry]);
                        }
                        instance.cache.insert(
                            self.stream_key.clone(),
                            CacheVal::Stream(StreamCacheVal { stream }),
                        );
                        Some(create_bulk_string_resp(id.to_text()))
                    },
                    Err(reply) => Some(reply),
                }
            },
        }
    }
}

} // verus!
