//! Signed decimal numerals as they appear on the wire.

use vstd::prelude::*;

verus! {

/// Whether `b` is an ASCII decimal digit.
pub open spec fn is_digit(b: u8) -> bool {
    48 <= b <= 57
}

/// Whether every byte of `s` is an ASCII decimal digit.
pub open spec fn all_digits(s: Seq<u8>) -> bool {
    forall|i: int| 0 <= i < s.len() ==> is_digit(#[trigger] s[i])
}

/// The number that a string of decimal digits denotes, most significant
/// digit first. The empty string denotes zero.
pub open spec fn digits_value(s: Seq<u8>) -> nat
    decreases s.len(),
{
    if s.len() == 0 {
        0
    } else {
        (digits_value(s.drop_last()) * 10 + (s.last() - 48)) as nat
    }
}

/// The shortest decimal numeral of `n`.
pub open spec fn decimal_digits(n: nat) -> Seq<u8>
    decreases n,
{
    if n < 10 {
        seq![(48 + n) as u8]
    } else {
        decimal_digits(n / 10).push((48 + n % 10) as u8)
    }
}

/// The numeral of a signed integer: a minus sign for negative numbers,
/// then the shortest decimal numeral of the magnitude.
pub open spec fn decimal_text(v: int) -> Seq<u8> {
    if v < 0 {
        seq![45u8] + decimal_digits((-v) as nat)
    } else {
        decimal_digits(v as nat)
    }
}

/// The number that a string of one or more digits denotes.
pub open spec fn numeral_value(s: Seq<u8>) -> Option<nat> {
    if s.len() > 0 && all_digits(s) {
        Some(digits_value(s))
    } else {
        None
    }
}

/// The number that an unsigned numeral denotes: an optional `+`, then at
/// least one digit and nothing else.
pub open spec fn unsigned_value(s: Seq<u8>) -> Option<nat> {
    if s.len() > 0 && s[0] == 43 {
        numeral_value(s.subrange(1, s.len() as int))
    } else {
        numeral_value(s)
    }
}

/// The integer that a signed numeral denotes: an optional sign (`+` or
/// `-`), then at least one digit and nothing else.
pub open spec fn decimal_value(s: Seq<u8>) -> Option<int> {
    if s.len() > 0 && s[0] == 45 {
        match numeral_value(s.subrange(1, s.len() as int)) {
            Some(n) => Some(-(n as int)),
            None => None,
        }
    } else {
        match unsigned_value(s) {
            Some(n) => Some(n as int),
            None => None,
        }
    }
}

/// The unsigned numerals that denote a number of at most `max`.
pub open spec fn unsigned_within(s: Seq<u8>, max: nat) -> Option<nat> {
    match unsigned_value(s) {
        Some(n) => if n <= max {
            Some(n)
        } else {
            None
        },
        None => None,
    }
}

/// The signed numerals that denote a 64-bit signed integer.
pub open spec fn i64_value(s: Seq<u8>) -> Option<i64> {
    match decimal_value(s) {
        Some(v) => if i64::MIN <= v <= i64::MAX {
            Some(v as i64)
        } else {
            None
        },
        None => None,
    }
}

pub proof fn lemma_decimal_digits_shape(n: nat)
    ensures
        decimal_digits(n).len() >= 1,
        all_digits(decimal_digits(n)),
    decreases n,
{
    if n >= 10 {
        lemma_decimal_digits_shape(n / 10);
    }
}

pub proof fn lemma_digits_value_of_decimal_digits(n: nat)
    ensures
        digits_value(decimal_digits(n)) == n,
    decreases n,
{
    if n < 10 {
        let s = decimal_digits(n);
        assert(s.drop_last() =~= Seq::<u8>::empty());
        assert(digits_value(s.drop_last()) == 0);
    } else {
        lemma_digits_value_of_decimal_digits(n / 10);
        let s = decimal_digits(n);
        assert(s.drop_last() =~= decimal_digits(n / 10));
    }
}

/// A numeral written by `decimal_text` reads back as the same number.
pub proof fn lemma_decimal_round_trip(v: int)
    ensures
        decimal_value(decimal_text(v)) == Some(v),
{
    if v < 0 {
        let n = (-v) as nat;
        lemma_decimal_digits_shape(n);
        lemma_digits_value_of_decimal_digits(n);
        let s = decimal_text(v);
        assert(s.subrange(1, s.len() as int) =~= decimal_digits(n));
    } else {
        let n = v as nat;
        lemma_decimal_digits_shape(n);
        lemma_digits_value_of_decimal_digits(n);
        let s = decimal_text(v);
        assert(is_digit(s[0]));
    }
}

/// The position of the first `byte` at or behind `from`, or the length of
/// the text where there is none.
pub open spec fn first_of(s: Seq<u8>, byte: u8, from: int) -> int
    decreases s.len() - from,
{
    if from < 0 || from >= s.len() {
        s.len() as int
    } else if s[from] == byte {
        from
    } else {
        first_of(s, byte, from + 1)
    }
}

/// Finds the first `byte` of a text.
pub fn find_first(s: &[u8], byte: u8) -> (i: usize)
    ensures
        i == first_of(s@, byte, 0),
        i <= s.len(),
{
    let mut i: usize = 0;
    while i < s.len() && s[i] != byte
        invariant
            i <= s.len(),
            first_of(s@, byte, 0) == first_of(s@, byte, i as int),
        decreases s.len() - i,
    {
        i = i + 1;
    }
    i
}

/// The first three digits of a fraction, with zeros where it has fewer.
pub open spec fn thousandths(frac: Seq<u8>) -> Seq<u8> {
    (frac + seq![48u8, 48u8, 48u8]).subrange(0, 3)
}

/// The milliseconds that a number of seconds denotes: digits, and behind
/// a `.`, where there is one, more digits, of which the first three
/// count.
pub open spec fn millis_value(s: Seq<u8>) -> Option<nat> {
    let dot = first_of(s, 46, 0);
    match numeral_value(s.subrange(0, dot)) {
        None => None,
        Some(whole) => if dot >= s.len() {
            Some(whole * 1000)
        } else {
            let frac = s.subrange(dot + 1, s.len() as int);
            if all_digits(frac) {
                Some(whole * 1000 + digits_value(thousandths(frac)))
            } else {
                None
            }
        },
    }
}

/// The milliseconds that a number of seconds denotes, as far as they fit
/// in 128 bits.
pub open spec fn millis_within(s: Seq<u8>) -> Option<u128> {
    match millis_value(s) {
        Some(ms) => if ms <= u128::MAX {
            Some(ms as u128)
        } else {
            None
        },
        None => None,
    }
}

/// Whether every byte of `s` is a digit.
pub fn only_digits(s: &[u8]) -> (b: bool)
    ensures
        b == all_digits(s@),
{
    let mut i: usize = 0;
    while i < s.len()
        invariant
            i <= s.len(),
            forall|j: int| 0 <= j < i ==> is_digit(s@[j]),
        decreases s.len() - i,
    {
        if s[i] < 48 || s[i] > 57 {
            return false;
        }
        i = i + 1;
    }
    true
}

/// Reads a number of seconds as milliseconds.
pub fn parse_millis(s: &[u8]) -> (r: Option<u128>)
    ensures
        r == millis_within(s@),
{
    let dot = find_first(s, 46);
    let whole = match parse_digits(vstd::slice::slice_subrange(s, 0, dot)) {
        Some(whole) => whole,
        None => {
            proof {
                if let Some(n) = numeral_value(s@.subrange(0, dot as int)) {
                    assert(n * 1000 >= n) by (nonlinear_arith)
                        requires
                            n >= 0,
                    ;
                }
            }
            return None;
        },
    };
    let mut part: u128 = 0;
    if dot < s.len() {
        let frac = vstd::slice::slice_subrange(s, dot + 1, s.len());
        if !only_digits(frac) {
            return None;
        }
        let d0: u128 = if frac.len() > 0 {
            (frac[0] - 48) as u128
        } else {
            0
        };
        let d1: u128 = if frac.len() > 1 {
            (frac[1] - 48) as u128
        } else {
            0
        };
        let d2: u128 = if frac.len() > 2 {
            (frac[2] - 48) as u128
        } else {
            0
        };
        part = d0 * 100 + d1 * 10 + d2;
        proof {
            let t = thousandths(frac@);
            assert(is_digit(frac@[0]) || frac.len() == 0);
            assert(t.len() == 3);
            let t2 = t.drop_last();
            let t1 = t2.drop_last();
            assert(t1.drop_last() =~= Seq::<u8>::empty());
            assert(digits_value(t1.drop_last()) == 0);
            assert(digits_value(t1) == t[0] - 48);
            assert(digits_value(t2) == digits_value(t1) * 10 + (t[1] - 48));
            assert(digits_value(t) == digits_value(t2) * 10 + (t[2] - 48));
            assert(t[0] - 48 == d0);
            assert(t[1] - 48 == d1);
            assert(t[2] - 48 == d2);
        }
    }
    if whole > (u128::MAX - part) / 1000 {
        return None;
    }
    Some(whole * 1000 + part)
}

/// A longer string of digits denotes no smaller a number than any of its
/// prefixes.
pub proof fn lemma_digits_value_prefix(s: Seq<u8>, i: int)
    requires
        0 <= i <= s.len(),
        all_digits(s),
    ensures
        digits_value(s.subrange(0, i)) <= digits_value(s),
    decreases s.len() - i,
{
    if i == s.len() {
        assert(s.subrange(0, i) =~= s);
    } else {
        let t = s.drop_last();
        assert(s.subrange(0, i) =~= t.subrange(0, i));
        lemma_digits_value_prefix(t, i);
        assert(is_digit(s.last()));
    }
}

/// Appends the shortest decimal numeral of `n` to `out`.
pub fn push_decimal(out: &mut Vec<u8>, n: u128)
    ensures
        final(out)@ == old(out)@ + decimal_digits(n as nat),
{
    let mut rev: Vec<u8> = Vec::new();
    let mut m: u128 = n;
    rev.push(48 + (m % 10) as u8);
    m = m / 10;
    while m > 0
        invariant
            decimal_digits(n as nat) =~= (if m > 0 {
                decimal_digits(m as nat)
            } else {
                Seq::<u8>::empty()
            }) + rev@.reverse(),
        decreases m,
    {
        rev.push(48 + (m % 10) as u8);
        m = m / 10;
    }
    let mut i: usize = rev.len();
    while i > 0
        invariant
            i <= rev.len(),
            out@ =~= old(out)@ + rev@.reverse().subrange(0, rev.len() - i),
        decreases i,
    {
        i = i - 1;
        out.push(rev[i]);
    }
    assert(rev@.reverse().subrange(0, rev.len() as int) =~= rev@.reverse());
}

/// Appends the numeral of the signed integer `v` to `out`.
pub fn push_int(out: &mut Vec<u8>, v: i64)
    ensures
        final(out)@ == old(out)@ + decimal_text(v as int),
{
    if v < 0 {
        out.push(45u8);
        let magnitude: u128 = (-(v as i128)) as u128;
        push_decimal(out, magnitude);
        assert(out@ =~= old(out)@ + decimal_text(v as int));
    } else {
        push_decimal(out, v as u128);
    }
}

/// Reads a string of one or more digits as a number, as far as it fits
/// in 128 bits.
pub fn parse_digits(s: &[u8]) -> (r: Option<u128>)
    ensures
        r matches Some(v) ==> numeral_value(s@) == Some(v as nat),
        r is None ==> (numeral_value(s@) matches Some(n) ==> n > u128::MAX),
{
    if s.len() == 0 {
        return None;
    }
    let mut acc: u128 = 0;
    let mut i: usize = 0;
    while i < s.len()
        invariant
            i <= s.len(),
            all_digits(s@.subrange(0, i as int)),
            acc == digits_value(s@.subrange(0, i as int)),
        decreases s.len() - i,
    {
        let b = s[i];
        if b < 48 || b > 57 {
            assert(!is_digit(s@[i as int]));
            return None;
        }
        let d: u128 = (b - 48) as u128;
        proof {
            assert(s@.subrange(0, i + 1).drop_last() =~= s@.subrange(0, i as int));
            assert(s@.subrange(0, i + 1).last() == b);
        }
        if acc > (u128::MAX - d) / 10 {
            proof {
                if all_digits(s@) {
                    lemma_digits_value_prefix(s@, i + 1);
                }
            }
            return None;
        }
        acc = acc * 10 + d;
        i = i + 1;
    }
    assert(s@.subrange(0, s.len() as int) =~= s@);
    Some(acc)
}

/// Reads an unsigned numeral of at most `max`.
pub fn parse_unsigned(s: &[u8], max: u128) -> (r: Option<u128>)
    ensures
        match unsigned_within(s@, max as nat) {
            Some(n) => r == Some(n as u128),
            None => r is None,
        },
{
    let digits = if s.len() > 0 && s[0] == 43 {
        vstd::slice::slice_subrange(s, 1, s.len())
    } else {
        s
    };
    match parse_digits(digits) {
        Some(v) => if v <= max {
            Some(v)
        } else {
            None
        },
        None => None,
    }
}

/// Reads a signed numeral that denotes a 64-bit signed integer.
pub fn parse_i64(s: &[u8]) -> (r: Option<i64>)
    ensures
        r == i64_value(s@),
{
    if s.len() > 0 && s[0] == 45 {
        let digits = vstd::slice::slice_subrange(s, 1, s.len());
        match parse_digits(digits) {
            Some(v) => if v <= 0x8000_0000_0000_0000u128 {
                Some((-(v as i128)) as i64)
            } else {
                None
            },
            None => None,
        }
    } else {
        match parse_unsigned(s, 0x7fff_ffff_ffff_ffffu128) {
            Some(v) => Some(v as i64),
            None => None,
        }
    }
}

} // verus!
