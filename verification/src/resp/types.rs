//! Frames as values, and the parser that reads them from a buffer.

use super::buffer::{buffer_bytes, buffer_slice};
use super::decimal::{i64_value, parse_i64};
use super::{Fault, RespError, CR, LF};
use bytes::BytesMut;
use vstd::prelude::*;
use vstd::slice::slice_subrange;

verus! {

/// One frame of the wire protocol.
#[derive(Debug)]
pub enum RespType {
    /// A string: written as a bulk string, read from a bulk or a simple one.
    String(Vec<u8>),
    /// An error with its text.
    Error(Vec<u8>),
    /// A 64-bit signed integer.
    Int(i64),
    /// An array of frames.
    Array(Vec<RespType>),
    /// The null array.
    NullArray,
    /// The null bulk string.
    NullBulkString,
}

/// A frame as a mathematical value.
pub enum Frame {
    String(Seq<u8>),
    Error(Seq<u8>),
    Int(i64),
    Array(Seq<Frame>),
    NullArray,
    NullBulkString,
}

impl RespType {
    /// The frame that this value stands for.
    pub open spec fn frame(&self) -> Frame
        decreases self,
    {
        match self {
            RespType::String(s) => Frame::String(s@),
            RespType::Error(s) => Frame::Error(s@),
            RespType::Int(n) => Frame::Int(*n),
            RespType::Array(items) => Frame::Array(
                Seq::new(
                    items.len() as nat,
                    |i: int|
                        if 0 <= i < items.len() {
                            items[i].frame()
                        } else {
                            Frame::NullArray
                        },
                ),
            ),
            RespType::NullArray => Frame::NullArray,
            RespType::NullBulkString => Frame::NullBulkString,
        }
    }
}

impl View for RespType {
    type V = Frame;

    open spec fn view(&self) -> Frame {
        self.frame()
    }
}

/// The frames that a list of frame values stands for.
pub open spec fn frames_of(items: Seq<RespType>) -> Seq<Frame> {
    Seq::new(items.len(), |i: int| items[i]@)
}

/// How the attempt to read a frame at a position ends: with the frame and
/// the position just behind it, or with a fault.
pub enum Parsed {
    Frame(Frame, int),
    Fail(Fault),
}

/// How the attempt to read a run of frames ends.
pub enum ParsedRun {
    Frames(Seq<Frame>, int),
    Fail(Fault),
}

/// How the attempt to read a line ends: with its text and the position
/// behind its line break, with the end of the buffer, or with a stray CR
/// or LF.
pub enum Line {
    Text(Seq<u8>, int),
    Incomplete,
    Broken,
}

/// The position of the first CR or LF at or behind `from`, or the length
/// of the buffer where there is none.
pub open spec fn first_break(buf: Seq<u8>, from: int) -> int
    decreases buf.len() - from,
{
    if from < 0 || from >= buf.len() {
        buf.len() as int
    } else if buf[from] == CR || buf[from] == LF {
        from
    } else {
        first_break(buf, from + 1)
    }
}

/// The line that starts at `from`: the bytes up to the first CR, which a
/// LF must follow.
pub open spec fn line_at(buf: Seq<u8>, from: int) -> Line {
    let i = first_break(buf, from);
    if from < 0 || i >= buf.len() {
        Line::Incomplete
    } else if buf[i] == LF {
        Line::Broken
    } else if i + 1 >= buf.len() {
        Line::Incomplete
    } else if buf[i + 1] == LF {
        Line::Text(buf.subrange(from, i), i + 2)
    } else {
        Line::Broken
    }
}

pub proof fn lemma_first_break(buf: Seq<u8>, from: int)
    requires
        0 <= from <= buf.len(),
    ensures
        from <= first_break(buf, from) <= buf.len(),
        forall|j: int| from <= j < first_break(buf, from) ==> buf[j] != CR && buf[j] != LF,
        ({
            let i = first_break(buf, from);
            i < buf.len() ==> buf[i] == CR || buf[i] == LF
        }),
    decreases buf.len() - from,
{
    if from < buf.len() && !(buf[from] == CR || buf[from] == LF) {
        lemma_first_break(buf, from + 1);
    }
}

/// A line, where there is one, ends within the buffer and behind its start.
pub proof fn lemma_line_at(buf: Seq<u8>, from: int)
    ensures
        line_at(buf, from) matches Line::Text(text, next) ==> 0 <= from && from + 2 <= next
            <= buf.len() && text.len() == next - 2 - from,
{
    if 0 <= from <= buf.len() {
        lemma_first_break(buf, from);
    }
}

/// The simple string whose text starts at `pos`.
pub open spec fn simple_string_at(buf: Seq<u8>, pos: int) -> Parsed {
    match line_at(buf, pos) {
        Line::Text(text, next) => Parsed::Frame(Frame::String(text), next),
        Line::Incomplete => Parsed::Fail(Fault::Incomplete),
        Line::Broken => Parsed::Fail(Fault::SimpleString),
    }
}

/// The error whose text starts at `pos`.
pub open spec fn error_at(buf: Seq<u8>, pos: int) -> Parsed {
    match line_at(buf, pos) {
        Line::Text(text, next) => Parsed::Frame(Frame::Error(text), next),
        Line::Incomplete => Parsed::Fail(Fault::Incomplete),
        Line::Broken => Parsed::Fail(Fault::SimpleString),
    }
}

/// The integer whose numeral starts at `pos`.
pub open spec fn int_at(buf: Seq<u8>, pos: int) -> Parsed {
    match line_at(buf, pos) {
        Line::Text(text, next) => match i64_value(text) {
            Some(n) => Parsed::Frame(Frame::Int(n), next),
            None => Parsed::Fail(Fault::Integer),
        },
        Line::Incomplete => Parsed::Fail(Fault::Incomplete),
        Line::Broken => Parsed::Fail(Fault::Integer),
    }
}

/// The bulk string whose length starts at `pos`. A length of -1 makes the
/// null bulk string; any other length is followed by that many bytes and
/// a line break.
pub open spec fn bulk_string_at(buf: Seq<u8>, pos: int) -> Parsed {
    match line_at(buf, pos) {
        Line::Text(text, next) => match i64_value(text) {
            Some(n) => if n == -1 {
                Parsed::Frame(Frame::NullBulkString, next)
            } else if n < 0 {
                Parsed::Fail(Fault::BulkString)
            } else if next + n + 2 > buf.len() {
                Parsed::Fail(Fault::Incomplete)
            } else if buf[next + n] == CR && buf[next + n + 1] == LF {
                Parsed::Frame(Frame::String(buf.subrange(next, next + n)), next + n + 2)
            } else {
                Parsed::Fail(Fault::BulkString)
            },
            None => Parsed::Fail(Fault::BulkString),
        },
        Line::Incomplete => Parsed::Fail(Fault::Incomplete),
        Line::Broken => Parsed::Fail(Fault::BulkString),
    }
}

/// The frame that starts at `pos` with its type byte.
pub open spec fn frame_at(buf: Seq<u8>, pos: int) -> Parsed
    decreases buf.len() - pos, 0nat,
{
    if pos < 0 || pos >= buf.len() {
        Parsed::Fail(Fault::Incomplete)
    } else if buf[pos] == 43 {
        simple_string_at(buf, pos + 1)
    } else if buf[pos] == 45 {
        error_at(buf, pos + 1)
    } else if buf[pos] == 58 {
        int_at(buf, pos + 1)
    } else if buf[pos] == 36 {
        bulk_string_at(buf, pos + 1)
    } else if buf[pos] == 42 {
        array_at(buf, pos + 1)
    } else {
        Parsed::Fail(Fault::Type)
    }
}

/// The array whose count starts at `pos`. A count of -1 makes the null
/// array; any other count is followed by that many frames. An element
/// that the buffer cuts short leaves the array incomplete; any other
/// fault in an element makes the array malformed.
pub open spec fn array_at(buf: Seq<u8>, pos: int) -> Parsed
    decreases buf.len() - pos, 2nat,
{
    match line_at(buf, pos) {
        Line::Text(text, next) => match i64_value(text) {
            Some(n) => if n == -1 {
                Parsed::Frame(Frame::NullArray, next)
            } else if n < 0 {
                Parsed::Fail(Fault::Array)
            } else {
                proof {
                    lemma_line_at(buf, pos);
                }
                match frames_at(buf, next, n as nat) {
                    ParsedRun::Frames(items, end) => Parsed::Frame(Frame::Array(items), end),
                    ParsedRun::Fail(Fault::Incomplete) => Parsed::Fail(Fault::Incomplete),
                    ParsedRun::Fail(_) => Parsed::Fail(Fault::Array),
                }
            },
            None => Parsed::Fail(Fault::Array),
        },
        Line::Incomplete => Parsed::Fail(Fault::Incomplete),
        Line::Broken => Parsed::Fail(Fault::Array),
    }
}

/// The run of `count` frames that starts at `pos`, or the fault of the
/// first frame that cannot be read. (A frame always ends behind its
/// start and within the buffer, see `lemma_frame_at_advances`; that this
/// is asked for here only shows that the definition is well founded.)
pub open spec fn frames_at(buf: Seq<u8>, pos: int, count: nat) -> ParsedRun
    decreases buf.len() - pos, 1nat, count,
{
    if count == 0 {
        ParsedRun::Frames(Seq::empty(), pos)
    } else {
        match frame_at(buf, pos) {
            Parsed::Frame(first, next) => if pos < next <= buf.len() {
                match frames_at(buf, next, (count - 1) as nat) {
                    ParsedRun::Frames(rest, end) => ParsedRun::Frames(seq![first] + rest, end),
                    ParsedRun::Fail(fault) => ParsedRun::Fail(fault),
                }
            } else {
                ParsedRun::Fail(Fault::Incomplete)
            },
            Parsed::Fail(fault) => ParsedRun::Fail(fault),
        }
    }
}

/// Whether what a parser returned is what the grammar says of the buffer.
pub open spec fn agrees(r: Result<(RespType, usize), RespError>, parsed: Parsed) -> bool {
    match parsed {
        Parsed::Frame(frame, next) => r matches Ok(found) && found.0@ == frame && found.1 == next,
        Parsed::Fail(fault) => r matches Err(e) && e.reports(fault),
    }
}

/// Where a line ends, as the scanner reports it.
enum LineEnd {
    /// The position of the CR that ends the text.
    Text(usize),
    Incomplete,
    Broken,
}

/// Finds the end of the line that starts at `from`.
fn scan_line(buf: &[u8], from: usize) -> (r: LineEnd)
    ensures
        match line_at(buf@, from as int) {
            Line::Text(text, next) => r matches LineEnd::Text(end) && from <= end && end + 2
                == next && next <= buf.len() && text == buf@.subrange(from as int, end as int),
            Line::Incomplete => r is Incomplete,
            Line::Broken => r is Broken,
        },
{
    if from >= buf.len() {
        return LineEnd::Incomplete;
    }
    let mut i: usize = from;
    while i < buf.len() && buf[i] != CR && buf[i] != LF
        invariant
            from <= i <= buf.len(),
            first_break(buf@, from as int) == first_break(buf@, i as int),
        decreases buf.len() - i,
    {
        i = i + 1;
    }
    if i >= buf.len() {
        LineEnd::Incomplete
    } else if buf[i] == LF {
        LineEnd::Broken
    } else if i + 1 >= buf.len() {
        LineEnd::Incomplete
    } else if buf[i + 1] == LF {
        LineEnd::Text(i)
    } else {
        LineEnd::Broken
    }
}

/// Copies `buf[from..to]`.
fn copy_range(buf: &[u8], from: usize, to: usize) -> (out: Vec<u8>)
    requires
        from <= to <= buf.len(),
    ensures
        out@ == buf@.subrange(from as int, to as int),
{
    vstd::slice::slice_to_vec(slice_subrange(buf, from, to))
}

/// Reads the simple string whose text starts at `pos`, behind the `+`.
pub fn simple_string_in(buf: &[u8], pos: usize) -> (r: Result<(RespType, usize), RespError>)
    ensures
        agrees(r, simple_string_at(buf@, pos as int)),
{
    match scan_line(buf, pos) {
        LineEnd::Text(end) => Ok((RespType::String(copy_range(buf, pos, end)), end + 2)),
        LineEnd::Incomplete => Err(RespError::new(Fault::Incomplete)),
        LineEnd::Broken => Err(
            RespError::new(Fault::SimpleString),
        ),
    }
}

/// Reads the error whose text starts at `pos`, behind the `-`.
pub fn error_in(buf: &[u8], pos: usize) -> (r: Result<(RespType, usize), RespError>)
    ensures
        agrees(r, error_at(buf@, pos as int)),
{
    match scan_line(buf, pos) {
        LineEnd::Text(end) => Ok((RespType::Error(copy_range(buf, pos, end)), end + 2)),
        LineEnd::Incomplete => Err(RespError::new(Fault::Incomplete)),
        LineEnd::Broken => Err(
            RespError::new(Fault::SimpleString),
        ),
    }
}

/// Reads the integer whose numeral starts at `pos`, behind the `:`.
pub fn int_in(buf: &[u8], pos: usize) -> (r: Result<(RespType, usize), RespError>)
    ensures
        agrees(r, int_at(buf@, pos as int)),
{
    match scan_line(buf, pos) {
        LineEnd::Text(end) => match parse_i64(slice_subrange(buf, pos, end)) {
            Some(n) => Ok((RespType::Int(n), end + 2)),
            None => Err(RespError::new(Fault::Integer)),
        },
        LineEnd::Incomplete => Err(RespError::new(Fault::Incomplete)),
        LineEnd::Broken => Err(RespError::new(Fault::Integer)),
    }
}

/// Reads the bulk string whose length starts at `pos`, behind the `$`.
pub fn bulk_string_in(buf: &[u8], pos: usize) -> (r: Result<(RespType, usize), RespError>)
    ensures
        agrees(r, bulk_string_at(buf@, pos as int)),
{
    match scan_line(buf, pos) {
        LineEnd::Text(end) => match parse_i64(slice_subrange(buf, pos, end)) {
            Some(n) => {
                let next = end + 2;
                if n == -1 {
                    Ok((RespType::NullBulkString, next))
                } else if n < 0 {
                    Err(RespError::new(Fault::BulkString))
                } else if n as u128 + 2 > (buf.len() - next) as u128 {
                    Err(RespError::new(Fault::Incomplete))
                } else {
                    let stop = next + n as usize;
                    if buf[stop] == CR && buf[stop + 1] == LF {
                        Ok((RespType::String(copy_range(buf, next, stop)), stop + 2))
                    } else {
                        Err(RespError::new(Fault::BulkString))
                    }
                }
            },
            None => Err(RespError::new(Fault::BulkString)),
        },
        LineEnd::Incomplete => Err(RespError::new(Fault::Incomplete)),
        LineEnd::Broken => Err(RespError::new(Fault::BulkString)),
    }
}

/// How the attempt to read a raw payload ends: with its bytes and the
/// position just behind them, or with a fault.
pub enum ParsedPayload {
    Bytes(Seq<u8>, int),
    Fail(Fault),
}

/// The raw payload that starts at `pos`: a `$`, the length, a line break
/// and that many bytes, with no line break behind them.
pub open spec fn raw_payload_at(buf: Seq<u8>, pos: int) -> ParsedPayload {
    if pos < 0 || pos >= buf.len() {
        ParsedPayload::Fail(Fault::Incomplete)
    } else if buf[pos] != 36 {
        ParsedPayload::Fail(Fault::Type)
    } else {
        match line_at(buf, pos + 1) {
            Line::Text(text, next) => match i64_value(text) {
                Some(n) => if n < 0 {
                    ParsedPayload::Fail(Fault::BulkString)
                } else if next + n > buf.len() {
                    ParsedPayload::Fail(Fault::Incomplete)
                } else {
                    ParsedPayload::Bytes(buf.subrange(next, next + n), next + n)
                },
                None => ParsedPayload::Fail(Fault::BulkString),
            },
            Line::Incomplete => ParsedPayload::Fail(Fault::Incomplete),
            Line::Broken => ParsedPayload::Fail(Fault::BulkString),
        }
    }
}

/// Reads the raw payload that starts at `pos`.
pub fn raw_payload_in(buf: &[u8], pos: usize) -> (r: Result<(Vec<u8>, usize), RespError>)
    ensures
        match raw_payload_at(buf@, pos as int) {
            ParsedPayload::Bytes(bytes, next) => r matches Ok(found) && found.0@ == bytes
                && found.1 == next,
            ParsedPayload::Fail(fault) => r matches Err(e) && e.reports(fault),
        },
{
    if pos >= buf.len() {
        return Err(RespError::new(Fault::Incomplete));
    }
    if buf[pos] != 36 {
        return Err(RespError::new(Fault::Type));
    }
    match scan_line(buf, pos + 1) {
        LineEnd::Text(end) => match parse_i64(slice_subrange(buf, pos + 1, end)) {
            Some(n) => {
                let next = end + 2;
                if n < 0 {
                    Err(RespError::new(Fault::BulkString))
                } else if n as u128 > (buf.len() - next) as u128 {
                    Err(RespError::new(Fault::Incomplete))
                } else {
                    let stop = next + n as usize;
                    Ok((copy_range(buf, next, stop), stop))
                }
            },
            None => Err(RespError::new(Fault::BulkString)),
        },
        LineEnd::Incomplete => Err(RespError::new(Fault::Incomplete)),
        LineEnd::Broken => Err(RespError::new(Fault::BulkString)),
    }
}

/// A run of frames put in front of what reading the rest gives.
pub open spec fn prepend(front: Seq<Frame>, rest: ParsedRun) -> ParsedRun {
    match rest {
        ParsedRun::Frames(items, end) => ParsedRun::Frames(front + items, end),
        ParsedRun::Fail(fault) => ParsedRun::Fail(fault),
    }
}

/// An array stands for the frames of its items.
pub proof fn lemma_array_view(items: Vec<RespType>)
    ensures
        RespType::Array(items)@ == Frame::Array(frames_of(items@)),
{
    reveal_with_fuel(RespType::frame, 2);
    assert(RespType::Array(items)@->Array_0 =~= frames_of(items@));
}

/// Reads the array whose count starts at `pos`, behind the `*`.
#[verifier::loop_isolation(false)]
pub fn array_in(buf: &[u8], pos: usize) -> (r: Result<(RespType, usize), RespError>)
    ensures
        agrees(r, array_at(buf@, pos as int)),
    decreases buf.len() - pos,
{
    match scan_line(buf, pos) {
        LineEnd::Text(end) => match parse_i64(slice_subrange(buf, pos, end)) {
            Some(n) => {
                let next = end + 2;
                if n == -1 {
                    Ok((RespType::NullArray, next))
                } else if n < 0 {
                    Err(RespError::new(Fault::Array))
                } else {
                    let mut values: Vec<RespType> = Vec::new();
                    let mut cur: usize = next;
                    let mut k: i64 = 0;
                    while k < n
                        invariant
                            0 <= k <= n,
                            pos < next <= cur <= buf.len(),
                            values.len() == k,
                            frames_at(buf@, next as int, n as nat) == prepend(
                                frames_of(values@),
                                frames_at(buf@, cur as int, (n - k) as nat),
                            ),
                        decreases n - k,
                    {
                        match parse_in(buf, cur) {
                            Ok((value, after)) => {
                                proof {
                                    lemma_frame_at_advances(buf@, cur as int);
                                    let rest = frames_at(buf@, after as int, (n - k - 1) as nat);
                                    let grown = values@.push(value);
                                    assert(frames_of(grown) =~= frames_of(values@) + seq![value@]);
                                    match rest {
                                        ParsedRun::Frames(items, stop) => {
                                            assert(frames_of(values@) + (seq![value@] + items)
                                                =~= frames_of(grown) + items);
                                        },
                                        ParsedRun::Fail(_) => {},
                                    }
                                }
                                values.push(value);
                                cur = after;
                                k = k + 1;
                            },
                            Err(e) => {
                                return if e.is_incomplete() {
                                    Err(e)
                                } else {
                                    Err(RespError::new(Fault::Array))
                                };
                            },
                        }
                    }
                    proof {
                        assert(frames_of(values@) + Seq::<Frame>::empty() =~= frames_of(values@));
                        lemma_array_view(values);
                    }
                    Ok((RespType::Array(values), cur))
                }
            },
            None => Err(RespError::new(Fault::Array)),
        },
        LineEnd::Incomplete => Err(RespError::new(Fault::Incomplete)),
        LineEnd::Broken => Err(RespError::new(Fault::Array)),
    }
}

/// Reads the frame that starts at `pos` with its type byte.
pub fn parse_in(buf: &[u8], pos: usize) -> (r: Result<(RespType, usize), RespError>)
    ensures
        agrees(r, frame_at(buf@, pos as int)),
    decreases buf.len() - pos,
{
    if pos >= buf.len() {
        return Err(RespError::new(Fault::Incomplete));
    }
    let tag = buf[pos];
    if tag == 43 {
        simple_string_in(buf, pos + 1)
    } else if tag == 45 {
        error_in(buf, pos + 1)
    } else if tag == 58 {
        int_in(buf, pos + 1)
    } else if tag == 36 {
        bulk_string_in(buf, pos + 1)
    } else if tag == 42 {
        array_in(buf, pos + 1)
    } else {
        Err(RespError::new(Fault::Type))
    }
}

/// A frame ends within the buffer and behind its start.
pub proof fn lemma_frame_at_advances(buf: Seq<u8>, pos: int)
    ensures
        frame_at(buf, pos) matches Parsed::Frame(_, next) ==> 0 <= pos < next <= buf.len(),
    decreases buf.len() - pos, 0nat,
{
    if 0 <= pos < buf.len() {
        lemma_line_at(buf, pos + 1);
        if buf[pos] == 42 {
            lemma_array_at_advances(buf, pos + 1);
        }
    }
}

proof fn lemma_array_at_advances(buf: Seq<u8>, pos: int)
    ensures
        array_at(buf, pos) matches Parsed::Frame(_, next) ==> 0 <= pos < next <= buf.len(),
    decreases buf.len() - pos, 2nat,
{
    lemma_line_at(buf, pos);
    match line_at(buf, pos) {
        Line::Text(text, next) => match i64_value(text) {
            Some(n) => if n >= 0 {
                lemma_frames_at_advances(buf, next, n as nat);
            },
            None => {},
        },
        _ => {},
    }
}

proof fn lemma_frames_at_advances(buf: Seq<u8>, pos: int, count: nat)
    requires
        0 <= pos <= buf.len(),
    ensures
        frames_at(buf, pos, count) matches ParsedRun::Frames(items, end) ==> pos <= end
            <= buf.len() && items.len() == count,
    decreases buf.len() - pos, 1nat, count,
{
    if count > 0 {
        lemma_frame_at_advances(buf, pos);
        match frame_at(buf, pos) {
            Parsed::Frame(_, next) => {
                lemma_frames_at_advances(buf, next, (count - 1) as nat);
            },
            _ => {},
        }
    }
}

impl RespType {
    /// Reads the frame that starts at `pos` in `buffer`. On success the
    /// second component is the position just behind the frame.
    pub fn parse(buffer: &BytesMut, pos: usize) -> (r: Result<(RespType, usize), RespError>)
        ensures
            agrees(r, frame_at(buffer_bytes(*buffer), pos as int)),
    {
        parse_in(buffer_slice(buffer), pos)
    }

    /// Reads the simple string whose text starts at `pos` in `buffer`.
    pub fn simple_string(buffer: &BytesMut, pos: usize) -> (r: Result<
        (RespType, usize),
        RespError,
    >)
        ensures
            agrees(r, simple_string_at(buffer_bytes(*buffer), pos as int)),
    {
        simple_string_in(buffer_slice(buffer), pos)
    }

    /// Reads the bulk string whose length starts at `pos` in `buffer`.
    pub fn bulk_string(buffer: &BytesMut, pos: usize) -> (r: Result<(RespType, usize), RespError>)
        ensures
            agrees(r, bulk_string_at(buffer_bytes(*buffer), pos as int)),
    {
        bulk_string_in(buffer_slice(buffer), pos)
    }

    /// Reads the array whose count starts at `pos` in `buffer`.
    pub fn array(buffer: &BytesMut, pos: usize) -> (r: Result<(RespType, usize), RespError>)
        ensures
            agrees(r, array_at(buffer_bytes(*buffer), pos as int)),
    {
        array_in(buffer_slice(buffer), pos)
    }
}

} // verus!
