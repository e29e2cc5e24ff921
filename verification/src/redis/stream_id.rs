//! Stream entry ids: a millisecond timestamp and a sequence number.

use crate::resp::decimal::{
    decimal_digits, find_first, first_of, lemma_decimal_digits_shape, numeral_value,
    parse_digits, push_decimal,
};
use vstd::prelude::*;
use vstd::slice::slice_subrange;

verus! {

/// The id of a stream entry, written `<ms>-<seq>`.
#[derive(Debug, Clone, Copy, PartialEq, Eq, Structural)]
pub struct StreamId {
    pub ms: u128,
    pub seq: u64,
}

impl StreamId {
    /// The order of ids: by `ms`, then by `seq`.
    pub open spec fn lt(self, other: StreamId) -> bool {
        self.ms < other.ms || (self.ms == other.ms && self.seq < other.seq)
    }

    /// The id `0-0`, below every id that a stream can hold.
    pub open spec fn zero() -> StreamId {
        StreamId { ms: 0, seq: 0 }
    }

    /// The text of an id.
    pub open spec fn text(self) -> Seq<u8> {
        decimal_digits(self.ms as nat) + seq![45u8] + decimal_digits(self.seq as nat)
    }

    /// The id that a text of the form `<ms>-<seq>` denotes.
    pub open spec fn from_text(s: Seq<u8>) -> Option<StreamId> {
        let dash = first_of(s, 45, 0);
        if dash >= s.len() {
            None
        } else {
            match (numeral_value(s.subrange(0, dash)), numeral_value(
                s.subrange(dash + 1, s.len() as int),
            )) {
                (Some(ms), Some(seq)) => if ms <= u128::MAX && seq <= u64::MAX {
                    Some(StreamId { ms: ms as u128, seq: seq as u64 })
                } else {
                    None
                },
                _ => None,
            }
        }
    }

    /// Whether `self` comes before `other`.
    pub fn less_than(&self, other: &StreamId) -> (b: bool)
        ensures
            b == self.lt(*other),
    {
        self.ms < other.ms || (self.ms == other.ms && self.seq < other.seq)
    }

    /// Writes the id as `<ms>-<seq>`.
    pub fn to_text(&self) -> (out: Vec<u8>)
        ensures
            out@ == self.text(),
    {
        let mut out: Vec<u8> = Vec::new();
        push_decimal(&mut out, self.ms);
        out.push(45u8);
        push_decimal(&mut out, self.seq as u128);
        assert(out@ =~= self.text());
        out
    }

    /// Reads an id of the form `<ms>-<seq>`.
    pub fn parse(s: &[u8]) -> (r: Option<StreamId>)
        ensures
            r == StreamId::from_text(s@),
    {
        let dash = find_first(s, 45);
        if dash >= s.len() {
            return None;
        }
        let ms = parse_digits(slice_subrange(s, 0, dash));
        let seq = parse_digits(slice_subrange(s, dash + 1, s.len()));
        match (ms, seq) {
            (Some(ms), Some(seq)) => if seq <= 0xffff_ffff_ffff_ffffu128 {
                Some(StreamId { ms, seq: seq as u64 })
            } else {
                None
            },
            _ => None,
        }
    }
}

proof fn lemma_first_dash_behind_digits(s: Seq<u8>, at: int, n: int)
    requires
        0 <= at <= n < s.len(),
        forall|i: int| 0 <= i < n ==> s[i] != 45,
        s[n] == 45,
    ensures
        first_of(s, 45, at) == n,
    decreases n - at,
{
    if at < n {
        lemma_first_dash_behind_digits(s, at + 1, n);
    }
}

/// The text of an id reads back as that id.
pub proof fn law_id_text_reads_back(id: StreamId)
    ensures
        StreamId::from_text(id.text()) == Some(id),
{
    let a = decimal_digits(id.ms as nat);
    let b = decimal_digits(id.seq as nat);
    let s = id.text();
    lemma_decimal_digits_shape(id.ms as nat);
    lemma_decimal_digits_shape(id.seq as nat);
    crate::resp::decimal::lemma_digits_value_of_decimal_digits(id.ms as nat);
    crate::resp::decimal::lemma_digits_value_of_decimal_digits(id.seq as nat);
    assert forall|i: int| 0 <= i < a.len() implies s[i] != 45 by {
        assert(crate::resp::decimal::is_digit(a[i]));
    }
    lemma_first_dash_behind_digits(s, 0, a.len() as int);
    assert(s.subrange(0, a.len() as int) =~= a);
    assert(s.subrange(a.len() as int + 1, s.len() as int) =~= b);
}

} // verus!
