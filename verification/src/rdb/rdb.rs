//! Reading a snapshot into keys, values and expiries.

use crate::commands::{ascii, bytes_of};
use crate::redis::client::{CacheVal, StringCacheVal, Value};
use crate::redis::store::{put, Store, Table};
use crate::resp::buffer::{buffer_bytes, buffer_slice};
use crate::resp::decimal::{decimal_text, push_int};
use bytes::BytesMut;
use vstd::prelude::*;
use vstd::slice::slice_subrange;
use vstd::string::{is_ascii_spec_bytes, StringSliceAdditionalSpecFns};

verus! {

/// Why some bytes are no snapshot.
#[derive(Debug, Clone, Copy, PartialEq, Eq, Structural)]
pub enum RdbError {
    /// The bytes end before the snapshot does.
    Truncated,
    /// The bytes do not start with `REDIS`.
    BadMagic,
    /// The marker of a section is not where it is due.
    BadSection,
    /// A string in an encoding that the loader does not read.
    BadString,
    /// A value of another type than string.
    BadValueType,
}

/// One key of a snapshot with its value and its expiry, in milliseconds
/// since the epoch.
#[derive(Debug)]
pub struct KeyValue {
    pub key: Vec<u8>,
    pub value: Vec<u8>,
    pub expiry_time: Option<u128>,
}

/// One pair of the metadata of a snapshot.
#[derive(Debug)]
pub struct Metadata {
    pub name: Vec<u8>,
    pub value: Vec<u8>,
}

/// What a snapshot holds.
#[derive(Debug)]
pub struct Rdb {
    pub version: Vec<u8>,
    pub metadata: Vec<Metadata>,
    pub key_values: Vec<KeyValue>,
}

/// What a snapshot holds, as a mathematical value.
pub struct Snapshot {
    pub version: Seq<u8>,
    pub metadata: Seq<(Seq<u8>, Seq<u8>)>,
    pub entries: Seq<(Seq<u8>, Seq<u8>, Option<u128>)>,
}

/// The pairs that a list of metadata stands for.
pub open spec fn metadata_of(items: Seq<Metadata>) -> Seq<(Seq<u8>, Seq<u8>)> {
    Seq::new(items.len(), |i: int| (items[i].name@, items[i].value@))
}

/// The entries that a list of keys with their values stands for.
pub open spec fn key_values_of(items: Seq<KeyValue>) -> Seq<(Seq<u8>, Seq<u8>, Option<u128>)> {
    Seq::new(items.len(), |i: int| (items[i].key@, items[i].value@, items[i].expiry_time))
}

impl View for Rdb {
    type V = Snapshot;

    open spec fn view(&self) -> Snapshot {
        Snapshot {
            version: self.version@,
            metadata: metadata_of(self.metadata@),
            entries: key_values_of(self.key_values@),
        }
    }
}

/// The signed number of `bits` bits that the unsigned number `v` stands
/// for in two's complement.
pub open spec fn signed(v: int, bits: int) -> int {
    if v < pow2(bits - 1) {
        v
    } else {
        v - pow2(bits)
    }
}

/// 2 to the power of 7, 8, 15, 16, 31 or 32.
pub open spec fn pow2(bits: int) -> int {
    if bits == 7 {
        0x80
    } else if bits == 8 {
        0x100
    } else if bits == 15 {
        0x8000
    } else if bits == 16 {
        0x1_0000
    } else if bits == 31 {
        0x8000_0000
    } else {
        0x1_0000_0000
    }
}

/// The number that four bytes denote, the least significant first.
pub open spec fn le_u32(buf: Seq<u8>, pos: int) -> int {
    buf[pos] + 0x100 * buf[pos + 1] + 0x1_0000 * buf[pos + 2] + 0x100_0000 * buf[pos + 3]
}

/// The number that two bytes denote, the least significant first.
pub open spec fn le_u16(buf: Seq<u8>, pos: int) -> int {
    buf[pos] + 0x100 * buf[pos + 1]
}

/// The number that eight bytes denote, the least significant first.
pub open spec fn le_u64(buf: Seq<u8>, pos: int) -> int {
    le_u32(buf, pos) + 0x1_0000_0000 * le_u32(buf, pos + 4)
}

/// The string that starts at `pos`, with the position behind it. A first
/// byte below 64 is the length of the bytes that follow. The first bytes
/// 0xC0, 0xC1 and 0xC2 announce a signed integer of one, two and four
/// bytes, the least significant first, which stands for its numeral.
pub open spec fn string_at(buf: Seq<u8>, pos: int) -> Result<(Seq<u8>, int), RdbError> {
    if pos < 0 || pos >= buf.len() {
        Err(RdbError::Truncated)
    } else if buf[pos] < 64 {
        if pos + 1 + buf[pos] > buf.len() {
            Err(RdbError::Truncated)
        } else {
            Ok((buf.subrange(pos + 1, pos + 1 + buf[pos]), pos + 1 + buf[pos]))
        }
    } else if buf[pos] == 0xC0 {
        if pos + 2 > buf.len() {
            Err(RdbError::Truncated)
        } else {
            Ok((decimal_text(signed(buf[pos + 1] as int, 8)), pos + 2))
        }
    } else if buf[pos] == 0xC1 {
        if pos + 3 > buf.len() {
            Err(RdbError::Truncated)
        } else {
            Ok((decimal_text(signed(le_u16(buf, pos + 1), 16)), pos + 3))
        }
    } else if buf[pos] == 0xC2 {
        if pos + 5 > buf.len() {
            Err(RdbError::Truncated)
        } else {
            Ok((decimal_text(signed(le_u32(buf, pos + 1), 32)), pos + 5))
        }
    } else {
        Err(RdbError::BadString)
    }
}

/// A string ends within the bytes and behind its start.
pub proof fn lemma_string_at(buf: Seq<u8>, pos: int)
    ensures
        string_at(buf, pos) matches Ok(found) ==> 0 <= pos < found.1 <= buf.len(),
{
}

/// The pairs of metadata from `pos` on, each behind its marker 0xFA, with
/// the position of the first byte that is no such marker.
pub open spec fn metadata_at(buf: Seq<u8>, pos: int) -> Result<
    (Seq<(Seq<u8>, Seq<u8>)>, int),
    RdbError,
>
    decreases buf.len() - pos,
{
    if pos < 0 || pos >= buf.len() {
        Err(RdbError::Truncated)
    } else if buf[pos] == 0xFA {
        match string_at(buf, pos + 1) {
            Ok((name, at)) => match string_at(buf, at) {
                Ok((value, next)) => {
                    proof {
                        lemma_string_at(buf, pos + 1);
                        lemma_string_at(buf, at);
                    }
                    match metadata_at(buf, next) {
                        Ok((rest, end)) => Ok((seq![(name, value)] + rest, end)),
                        Err(e) => Err(e),
                    }
                },
                Err(e) => Err(e),
            },
            Err(e) => Err(e),
        }
    } else {
        Ok((Seq::empty(), pos))
    }
}

/// The expiry in front of an entry, in milliseconds, with the position
/// behind it: 0xFD and four bytes of seconds, 0xFC and eight bytes of
/// milliseconds, or nothing.
pub open spec fn expiry_at(buf: Seq<u8>, pos: int) -> Result<(Option<u128>, int), RdbError> {
    if pos < 0 || pos >= buf.len() {
        Err(RdbError::Truncated)
    } else if buf[pos] == 0xFD {
        if pos + 5 > buf.len() {
            Err(RdbError::Truncated)
        } else {
            Ok((Some((le_u32(buf, pos + 1) * 1000) as u128), pos + 5))
        }
    } else if buf[pos] == 0xFC {
        if pos + 9 > buf.len() {
            Err(RdbError::Truncated)
        } else {
            Ok((Some(le_u64(buf, pos + 1) as u128), pos + 9))
        }
    } else {
        Ok((None, pos))
    }
}

/// The entry that starts at `pos`: its expiry, where it has one, the
/// type of its value, which is 0, its key and its value.
pub open spec fn entry_at(buf: Seq<u8>, pos: int) -> Result<
    ((Seq<u8>, Seq<u8>, Option<u128>), int),
    RdbError,
> {
    match expiry_at(buf, pos) {
        Ok((expiry, at)) => if at >= buf.len() {
            Err(RdbError::Truncated)
        } else if buf[at] != 0 {
            Err(RdbError::BadValueType)
        } else {
            match string_at(buf, at + 1) {
                Ok((key, mid)) => match string_at(buf, mid) {
                    Ok((value, next)) => Ok(((key, value, expiry), next)),
                    Err(e) => Err(e),
                },
                Err(e) => Err(e),
            }
        },
        Err(e) => Err(e),
    }
}

/// The `count` entries from `pos` on, with the position behind them.
pub open spec fn entries_at(buf: Seq<u8>, pos: int, count: nat) -> Result<
    (Seq<(Seq<u8>, Seq<u8>, Option<u128>)>, int),
    RdbError,
>
    decreases count,
{
    if count == 0 {
        Ok((Seq::empty(), pos))
    } else {
        match entry_at(buf, pos) {
            Ok((first, next)) => match entries_at(buf, next, (count - 1) as nat) {
                Ok((rest, end)) => Ok((seq![first] + rest, end)),
                Err(e) => Err(e),
            },
            Err(e) => Err(e),
        }
    }
}

/// The bytes `REDIS`.
pub open spec fn magic() -> Seq<u8> {
    seq![82u8, 69u8, 68u8, 73u8, 83u8]
}

/// The keys of the database section that starts at `pos` with its marker
/// 0xFE: the index of the database, the marker 0xFB, the number of keys,
/// the number of keys with an expiry, the entries and the end marker.
pub open spec fn database_at(buf: Seq<u8>, pos: int) -> Result<
    Seq<(Seq<u8>, Seq<u8>, Option<u128>)>,
    RdbError,
> {
    if pos + 5 > buf.len() {
        Err(RdbError::Truncated)
    } else if buf[pos + 2] != 0xFB {
        Err(RdbError::BadSection)
    } else {
        match entries_at(buf, pos + 5, buf[pos + 3] as nat) {
            Ok((entries, end)) => if end >= buf.len() {
                Err(RdbError::Truncated)
            } else if buf[end] != 0xFF {
                Err(RdbError::BadSection)
            } else {
                Ok(entries)
            },
            Err(e) => Err(e),
        }
    }
}

/// What a snapshot holds: behind the header `REDIS` and four bytes of
/// version, one or more pairs of metadata, then the database section,
/// where there is one, and the end marker 0xFF. What follows the end
/// marker is not read.
pub open spec fn snapshot_of(buf: Seq<u8>) -> Result<Snapshot, RdbError> {
    if buf.len() < 5 {
        Err(RdbError::Truncated)
    } else if buf.subrange(0, 5) != magic() {
        Err(RdbError::BadMagic)
    } else if buf.len() < 10 {
        Err(RdbError::Truncated)
    } else if buf[9] != 0xFA {
        Err(RdbError::BadSection)
    } else {
        match metadata_at(buf, 9) {
            Ok((metadata, at)) => if at >= buf.len() {
                Err(RdbError::Truncated)
            } else if buf[at] == 0xFF {
                Ok(Snapshot { version: buf.subrange(5, 9), metadata, entries: Seq::empty() })
            } else if buf[at] == 0xFE {
                match database_at(buf, at) {
                    Ok(entries) => Ok(Snapshot { version: buf.subrange(5, 9), metadata, entries }),
                    Err(e) => Err(e),
                }
            } else {
                Err(RdbError::BadSection)
            },
            Err(e) => Err(e),
        }
    }
}

/// The table with the entries of a snapshot written into it as strings,
/// one after the other.
pub open spec fn loaded(table: Table, entries: Seq<(Seq<u8>, Seq<u8>, Option<u128>)>) -> Table
    decreases entries.len(),
{
    if entries.len() == 0 {
        table
    } else {
        put(
            loaded(table, entries.drop_last()),
            entries.last().0,
            Value::String { val: entries.last().1, expiry: entries.last().2 },
        )
    }
}

/// Copies `buf[from..to]`.
fn copy_range(buf: &[u8], from: usize, to: usize) -> (out: Vec<u8>)
    requires
        from <= to <= buf.len(),
    ensures
        out@ == buf@.subrange(from as int, to as int),
{
    vstd::slice::slice_to_vec(slice_subrange(buf, from, to))
}

/// Reads four bytes as a number, the least significant first.
fn read_u32(buf: &[u8], pos: usize) -> (v: u64)
    requires
        pos + 4 <= buf.len(),
    ensures
        v == le_u32(buf@, pos as int),
        v < 0x1_0000_0000,
{
    buf[pos] as u64 + 0x100 * (buf[pos + 1] as u64) + 0x1_0000 * (buf[pos + 2] as u64) + 0x100_0000
        * (buf[pos + 3] as u64)
}

/// The numeral of a signed integer.
fn numeral(v: i64) -> (out: Vec<u8>)
    ensures
        out@ == decimal_text(v as int),
{
    let mut out: Vec<u8> = Vec::new();
    push_int(&mut out, v);
    assert(out@ =~= decimal_text(v as int));
    out
}

/// Reads the string that starts at `pos`.
fn read_string(buf: &[u8], pos: usize) -> (r: Result<(Vec<u8>, usize), RdbError>)
    ensures
        match string_at(buf@, pos as int) {
            Ok((text, next)) => r matches Ok(found) && found.0@ == text && found.1 == next,
            Err(e) => r == Err::<(Vec<u8>, usize), RdbError>(e),
        },
{
    if pos >= buf.len() {
        return Err(RdbError::Truncated);
    }
    let tag = buf[pos];
    let left = buf.len() - pos;
    if tag < 64 {
        if 1 + tag as usize > left {
            Err(RdbError::Truncated)
        } else {
            let next = pos + 1 + tag as usize;
            Ok((copy_range(buf, pos + 1, next), next))
        }
    } else if tag == 0xC0 {
        if left < 2 {
            Err(RdbError::Truncated)
        } else {
            let raw = buf[pos + 1] as i64;
            let v = if raw < 0x80 {
                raw
            } else {
                raw - 0x100
            };
            Ok((numeral(v), pos + 2))
        }
    } else if tag == 0xC1 {
        if left < 3 {
            Err(RdbError::Truncated)
        } else {
            let raw = buf[pos + 1] as i64 + 0x100 * (buf[pos + 2] as i64);
            let v = if raw < 0x8000 {
                raw
            } else {
                raw - 0x1_0000
            };
            Ok((numeral(v), pos + 3))
        }
    } else if tag == 0xC2 {
        if left < 5 {
            Err(RdbError::Truncated)
        } else {
            let raw = read_u32(buf, pos + 1) as i64;
            let v = if raw < 0x8000_0000 {
                raw
            } else {
                raw - 0x1_0000_0000
            };
            Ok((numeral(v), pos + 5))
        }
    } else {
        Err(RdbError::BadString)
    }
}

/// Reads the pairs of metadata from `pos` on.
fn read_metadata(buf: &[u8], pos: usize) -> (r: Result<(Vec<Metadata>, usize), RdbError>)
    ensures
        match metadata_at(buf@, pos as int) {
            Ok((pairs, end)) => r matches Ok(found) && metadata_of(found.0@) == pairs && found.1
                == end && end < buf.len(),
            Err(e) => r == Err::<(Vec<Metadata>, usize), RdbError>(e),
        },
{
    let mut pairs: Vec<Metadata> = Vec::new();
    let mut cur: usize = pos;
    loop
        invariant
            match metadata_at(buf@, cur as int) {
                Ok((rest, end)) => metadata_at(buf@, pos as int) == Ok::<
                    (Seq<(Seq<u8>, Seq<u8>)>, int),
                    RdbError,
                >((metadata_of(pairs@) + rest, end)),
                Err(e) => metadata_at(buf@, pos as int) == Err::<
                    (Seq<(Seq<u8>, Seq<u8>)>, int),
                    RdbError,
                >(e),
            },
        decreases buf.len() - cur,
    {
        if cur >= buf.len() {
            return Err(RdbError::Truncated);
        }
        if buf[cur] != 0xFA {
            assert(metadata_of(pairs@) + Seq::<(Seq<u8>, Seq<u8>)>::empty() =~= metadata_of(
                pairs@,
            ));
            return Ok((pairs, cur));
        }
        proof {
            lemma_string_at(buf@, cur + 1);
        }
        let (name, at) = match read_string(buf, cur + 1) {
            Ok(found) => found,
            Err(e) => {
                return Err(e);
            },
        };
        proof {
            lemma_string_at(buf@, at as int);
        }
        let (value, next) = match read_string(buf, at) {
            Ok(found) => found,
            Err(e) => {
                return Err(e);
            },
        };
        proof {
            let done = metadata_of(pairs@);
            let pair = (name@, value@);
            match metadata_at(buf@, next as int) {
                Ok((rest, end)) => {
                    assert(done + (seq![pair] + rest) =~= done.push(pair) + rest);
                },
                Err(_) => {},
            }
            assert(metadata_of(pairs@.push(Metadata { name, value })) =~= done.push(pair));
        }
        pairs.push(Metadata { name, value });
        cur = next;
    }
}

/// Reads the entry that starts at `pos`.
fn read_entry(buf: &[u8], pos: usize) -> (r: Result<(KeyValue, usize), RdbError>)
    ensures
        match entry_at(buf@, pos as int) {
            Ok((entry, next)) => r matches Ok(found) && (
                found.0.key@,
                found.0.value@,
                found.0.expiry_time,
            ) == entry && found.1 == next,
            Err(e) => r == Err::<(KeyValue, usize), RdbError>(e),
        },
{
    if pos >= buf.len() {
        return Err(RdbError::Truncated);
    }
    let left = buf.len() - pos;
    let (expiry_time, at): (Option<u128>, usize) = if buf[pos] == 0xFD {
        if left < 5 {
            return Err(RdbError::Truncated);
        }
        (Some((read_u32(buf, pos + 1) as u128) * 1000), pos + 5)
    } else if buf[pos] == 0xFC {
        if left < 9 {
            return Err(RdbError::Truncated);
        }
        let low = read_u32(buf, pos + 1) as u128;
        let high = read_u32(buf, pos + 5) as u128;
        (Some(low + 0x1_0000_0000 * high), pos + 9)
    } else {
        (None, pos)
    };
    if at >= buf.len() {
        return Err(RdbError::Truncated);
    }
    if buf[at] != 0 {
        return Err(RdbError::BadValueType);
    }
    let (key, mid) = match read_string(buf, at + 1) {
        Ok(found) => found,
        Err(e) => {
            return Err(e);
        },
    };
    let (value, next) = match read_string(buf, mid) {
        Ok(found) => found,
        Err(e) => {
            return Err(e);
        },
    };
    Ok((KeyValue { key, value, expiry_time }, next))
}

/// Entries in front of what reading the rest gives.
pub open spec fn entries_then(
    front: Seq<(Seq<u8>, Seq<u8>, Option<u128>)>,
    rest: Result<(Seq<(Seq<u8>, Seq<u8>, Option<u128>)>, int), RdbError>,
) -> Result<(Seq<(Seq<u8>, Seq<u8>, Option<u128>)>, int), RdbError> {
    match rest {
        Ok((entries, end)) => Ok((front + entries, end)),
        Err(e) => Err(e),
    }
}

/// Reads `count` entries from `pos` on.
fn read_entries(buf: &[u8], pos: usize, count: u8) -> (r: Result<(Vec<KeyValue>, usize), RdbError>)
    ensures
        match entries_at(buf@, pos as int, count as nat) {
            Ok((entries, end)) => r matches Ok(found) && key_values_of(found.0@) == entries
                && found.1 == end,
            Err(e) => r == Err::<(Vec<KeyValue>, usize), RdbError>(e),
        },
{
    let mut entries: Vec<KeyValue> = Vec::new();
    let mut cur: usize = pos;
    let mut k: u8 = 0;
    while k < count
        invariant
            k <= count,
            entries_at(buf@, pos as int, count as nat) == entries_then(
                key_values_of(entries@),
                entries_at(buf@, cur as int, (count - k) as nat),
            ),
        decreases count - k,
    {
        match read_entry(buf, cur) {
            Ok((entry, next)) => {
                proof {
                    let done = key_values_of(entries@);
                    let one = (entry.key@, entry.value@, entry.expiry_time);
                    match entries_at(buf@, next as int, (count - k - 1) as nat) {
                        Ok((rest, end)) => {
                            assert(done + (seq![one] + rest) =~= done.push(one) + rest);
                        },
                        Err(_) => {},
                    }
                    assert(key_values_of(entries@.push(entry)) =~= done.push(one));
                }
                entries.push(entry);
                cur = next;
                k = k + 1;
            },
            Err(e) => {
                return Err(e);
            },
        }
    }
    assert(key_values_of(entries@) + Seq::<(Seq<u8>, Seq<u8>, Option<u128>)>::empty()
        =~= key_values_of(entries@));
    Ok((entries, cur))
}

impl Rdb {
    /// Reads a snapshot from its bytes.
    pub fn parse(data: &[u8]) -> (r: Result<Rdb, RdbError>)
        ensures
            match snapshot_of(data@) {
                Ok(snapshot) => r matches Ok(rdb) && rdb@ == snapshot,
                Err(e) => r matches Err(found) && found == e,
            },
    {
        if data.len() < 5 {
            return Err(RdbError::Truncated);
        }
        if data[0] != 82 || data[1] != 69 || data[2] != 68 || data[3] != 73 || data[4] != 83 {
            assert(data@.subrange(0, 5)[0] == data@[0]);
            assert(data@.subrange(0, 5)[1] == data@[1]);
            assert(data@.subrange(0, 5)[2] == data@[2]);
            assert(data@.subrange(0, 5)[3] == data@[3]);
            assert(data@.subrange(0, 5)[4] == data@[4]);
            return Err(RdbError::BadMagic);
        }
        assert(data@.subrange(0, 5) =~= magic());
        if data.len() < 10 {
            return Err(RdbError::Truncated);
        }
        if data[9] != 0xFA {
            return Err(RdbError::BadSection);
        }
        let version = copy_range(data, 5, 9);
        let (metadata, at) = match read_metadata(data, 9) {
            Ok(found) => found,
            Err(e) => {
                return Err(e);
            },
        };
        if data[at] == 0xFF {
            let key_values: Vec<KeyValue> = Vec::new();
            assert(key_values_of(key_values@) =~= Seq::empty());
            Ok(Rdb { version, metadata, key_values })
        } else if data[at] == 0xFE {
            if data.len() - at < 5 {
                return Err(RdbError::Truncated);
            }
            if data[at + 2] != 0xFB {
                return Err(RdbError::BadSection);
            }
            let (key_values, end) = match read_entries(data, at + 5, data[at + 3]) {
                Ok(found) => found,
                Err(e) => {
                    return Err(e);
                },
            };
            if end >= data.len() {
                return Err(RdbError::Truncated);
            }
            if data[end] != 0xFF {
                return Err(RdbError::BadSection);
            }
            Ok(Rdb { version, metadata, key_values })
        } else {
            Err(RdbError::BadSection)
        }
    }

    /// Reads a snapshot from a buffer.
    pub fn new(rdb_data: BytesMut) -> (r: Result<Rdb, RdbError>)
        ensures
            match snapshot_of(buffer_bytes(rdb_data)) {
                Ok(snapshot) => r matches Ok(rdb) && rdb@ == snapshot,
                Err(e) => r matches Err(found) && found == e,
            },
    {
        Rdb::parse(buffer_slice(&rdb_data))
    }

    /// Writes the keys of the snapshot into a store, as strings.
    pub fn apply_to_db(&self, cache: &mut Store)
        requires
            old(cache).wf(),
        ensures
            final(cache).wf(),
            final(cache)@ == loaded(old(cache)@, self@.entries),
    {
        let ghost entries = self@.entries;
        let mut i: usize = 0;
        assert(entries.subrange(0, 0) =~= Seq::empty());
        while i < self.key_values.len()
            invariant
                i <= self.key_values.len(),
                entries == self@.entries,
                cache.wf(),
                cache@ == loaded(old(cache)@, entries.subrange(0, i as int)),
            decreases self.key_values.len() - i,
        {
            proof {
                let next = entries.subrange(0, i + 1);
                assert(next.drop_last() =~= entries.subrange(0, i as int));
                assert(next.last() == entries[i as int]);
            }
            let entry = &self.key_values[i];
            cache.insert(
                entry.key.clone(),
                CacheVal::String(
                    StringCacheVal { val: entry.value.clone(), expiry_time: entry.expiry_time },
                ),
            );
            i = i + 1;
        }
        assert(entries.subrange(0, entries.len() as int) =~= entries);
    }
}

/// A snapshot without keys: the header, one pair of metadata and the end
/// marker.
pub open spec fn empty_snapshot_bytes() -> Seq<u8> {
    ascii("REDIS0011") + seq![0xFAu8, 9u8] + ascii("redis-ver") + seq![5u8] + ascii("7.2.0")
        + seq![0xFFu8]
}

/// A snapshot without keys, as a leader sends it to a new follower.
pub fn empty_snapshot() -> (out: Vec<u8>)
    ensures
        out@ == empty_snapshot_bytes(),
{
    let mut out = bytes_of("REDIS0011");
    out.push(0xFAu8);
    out.push(9u8);
    let mut name = bytes_of("redis-ver");
    out.append(&mut name);
    out.push(5u8);
    let mut value = bytes_of("7.2.0");
    out.append(&mut value);
    out.push(0xFFu8);
    assert(out@ =~= empty_snapshot_bytes());
    out
}

/// The bytes of the snapshot without keys, one by one.
proof fn lemma_empty_snapshot_layout()
    ensures
        empty_snapshot_bytes().len() == 27,
        empty_snapshot_bytes().subrange(0, 5) == magic(),
        empty_snapshot_bytes().subrange(5, 9) == ascii("0011"),
        empty_snapshot_bytes()[9] == 0xFA,
        empty_snapshot_bytes()[10] == 9,
        empty_snapshot_bytes().subrange(11, 20) == ascii("redis-ver"),
        empty_snapshot_bytes()[20] == 5,
        empty_snapshot_bytes().subrange(21, 26) == ascii("7.2.0"),
        empty_snapshot_bytes()[26] == 0xFF,
{
    broadcast use is_ascii_spec_bytes;

    reveal_strlit("REDIS0011");
    reveal_strlit("redis-ver");
    reveal_strlit("7.2.0");
    reveal_strlit("0011");
    let buf = empty_snapshot_bytes();
    let head = "REDIS0011";
    let name = "redis-ver";
    let value = "7.2.0";
    let version = "0011";
    assert(vstd::string::is_ascii(head));
    assert(vstd::string::is_ascii(name));
    assert(vstd::string::is_ascii(value));
    assert(vstd::string::is_ascii(version));
    assert(ascii(head).len() == 9);
    assert(ascii(name).len() == 9);
    assert(ascii(value).len() == 5);
    assert(ascii(version).len() == 4);
    assert(buf.len() == 27);
    assert(buf.subrange(0, 5) =~= magic());
    assert(buf.subrange(5, 9) =~= ascii(version));
    assert(buf.subrange(11, 20) =~= ascii(name));
    assert(buf.subrange(21, 26) =~= ascii(value));
}

/// A string of fewer than 64 bytes behind its length is read as it
/// stands.
proof fn lemma_short_string(buf: Seq<u8>, pos: int, text: Seq<u8>)
    requires
        0 <= pos,
        text.len() < 64,
        pos + 1 + text.len() <= buf.len(),
        buf[pos] == text.len(),
        buf.subrange(pos + 1, pos + 1 + text.len()) == text,
    ensures
        string_at(buf, pos) == Ok::<(Seq<u8>, int), RdbError>((text, pos + 1 + text.len())),
{
}

/// The snapshot without keys is one that the loader reads: it has the
/// version `0011`, one pair of metadata and no key.
pub proof fn law_empty_snapshot_loads()
    ensures
        snapshot_of(empty_snapshot_bytes()) == Ok::<Snapshot, RdbError>(
            Snapshot {
                version: ascii("0011"),
                metadata: seq![(ascii("redis-ver"), ascii("7.2.0"))],
                entries: Seq::empty(),
            },
        ),
{
    let buf = empty_snapshot_bytes();
    let name = ascii("redis-ver");
    let value = ascii("7.2.0");
    lemma_empty_snapshot_layout();
    assert(name.len() == 9) by {
        assert(buf.subrange(11, 20).len() == 9);
    }
    assert(value.len() == 5) by {
        assert(buf.subrange(21, 26).len() == 5);
    }
    lemma_short_string(buf, 10, name);
    lemma_short_string(buf, 20, value);
    assert(metadata_at(buf, 26) == Ok::<(Seq<(Seq<u8>, Seq<u8>)>, int), RdbError>(
        (Seq::empty(), 26),
    ));
    assert(seq![(name, value)] + Seq::<(Seq<u8>, Seq<u8>)>::empty() =~= seq![(name, value)]);
    assert(metadata_at(buf, 9) == Ok::<(Seq<(Seq<u8>, Seq<u8>)>, int), RdbError>(
        (seq![(name, value)], 26),
    ));
}

} // verus!
