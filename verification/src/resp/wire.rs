//! The byte encoding of frames, and the proof that the parser reads back
//! what the encoder writes.

use super::decimal::{
    all_digits, decimal_digits, decimal_text, i64_value, lemma_decimal_digits_shape,
    lemma_decimal_round_trip, push_decimal, push_int,
};
use super::types::{
    bulk_string_at, error_at, first_break, frame_at, frames_at, frames_of, int_at,
    lemma_array_view, line_at, Frame, Line, Parsed, ParsedRun, RespType,
};
use super::{
    bulk_string_wire, crlf, error_wire, int_wire, null_array_wire, null_bulk_string_wire, CR, LF,
};
use vstd::prelude::*;

verus! {

/// The bytes that stand for a frame on the wire.
pub open spec fn wire(f: Frame) -> Seq<u8>
    decreases f, 0nat,
{
    match f {
        Frame::String(s) => bulk_string_wire(s),
        Frame::Error(s) => error_wire(s),
        Frame::Int(n) => int_wire(n as int),
        Frame::Array(items) => seq![42u8] + decimal_digits(items.len()) + crlf() + wire_all(
            items,
        ),
        Frame::NullArray => null_array_wire(),
        Frame::NullBulkString => null_bulk_string_wire(),
    }
}

/// The bytes of a run of frames, one behind the other.
pub open spec fn wire_all(items: Seq<Frame>) -> Seq<u8>
    decreases items, 1nat,
{
    if items.len() == 0 {
        Seq::empty()
    } else {
        wire(items[0]) + wire_all(items.drop_first())
    }
}

/// Whether a text can stand in a simple string or an error: it holds no
/// CR and no LF.
pub open spec fn is_line_text(s: Seq<u8>) -> bool {
    forall|i: int| 0 <= i < s.len() ==> #[trigger] s[i] != CR && s[i] != LF
}

/// The frames that the wire format can carry: an error's text holds no CR
/// or LF, and lengths and counts fit a 64-bit signed integer.
pub open spec fn well_formed(f: Frame) -> bool
    decreases f,
{
    match f {
        Frame::String(s) => s.len() <= i64::MAX,
        Frame::Error(s) => is_line_text(s),
        Frame::Array(items) => items.len() <= i64::MAX && forall|i: int|
            0 <= i < items.len() ==> well_formed(#[trigger] items[i]),
        _ => true,
    }
}

/// A text without CR or LF that a line break follows is read as a line.
pub proof fn lemma_line_of_text(buf: Seq<u8>, from: int, text: Seq<u8>)
    requires
        0 <= from,
        from + text.len() + 2 <= buf.len(),
        is_line_text(text),
        buf.subrange(from, from + text.len()) == text,
        buf[from + text.len()] == CR,
        buf[from + text.len() + 1] == LF,
    ensures
        line_at(buf, from) == Line::Text(text, from + text.len() + 2),
{
    lemma_break_behind_text(buf, from, from, text);
}

proof fn lemma_break_behind_text(buf: Seq<u8>, from: int, at: int, text: Seq<u8>)
    requires
        0 <= from <= at <= from + text.len(),
        from + text.len() < buf.len(),
        is_line_text(text),
        buf.subrange(from, from + text.len()) == text,
        buf[from + text.len()] == CR,
    ensures
        first_break(buf, at) == from + text.len(),
    decreases from + text.len() - at,
{
    if at < from + text.len() {
        assert(buf[at] == buf.subrange(from, from + text.len())[at - from]);
        assert(text[at - from] != CR && text[at - from] != LF);
        lemma_break_behind_text(buf, from, at + 1, text);
    }
}

/// A numeral holds no CR and no LF.
pub proof fn lemma_numeral_is_line_text(v: int)
    ensures
        is_line_text(decimal_text(v)),
        is_line_text(decimal_digits(v as nat)),
{
    lemma_decimal_digits_shape(v as nat);
    lemma_decimal_digits_shape((-v) as nat);
    let d = decimal_digits(v as nat);
    assert forall|i: int| 0 <= i < d.len() implies #[trigger] d[i] != CR && d[i] != LF by {
        assert(super::decimal::is_digit(d[i]));
    }
    let t = decimal_text(v);
    let m = decimal_digits((-v) as nat);
    assert forall|i: int| 0 <= i < t.len() implies #[trigger] t[i] != CR && t[i] != LF by {
        if v < 0 {
            if i > 0 {
                assert(super::decimal::is_digit(m[i - 1]));
            }
        } else {
            assert(super::decimal::is_digit(d[i]));
        }
    }
}

/// A part of what stands in a buffer stands in the buffer too.
proof fn lemma_part(buf: Seq<u8>, pos: int, w: Seq<u8>, off: int, part: Seq<u8>)
    requires
        0 <= pos,
        pos + w.len() <= buf.len(),
        buf.subrange(pos, pos + w.len()) == w,
        0 <= off,
        off + part.len() <= w.len(),
        w.subrange(off, off + part.len()) == part,
    ensures
        buf.subrange(pos + off, pos + off + part.len()) == part,
{
    assert forall|i: int| 0 <= i < part.len() implies buf[pos + off + i] == part[i] by {
        assert(buf.subrange(pos, pos + w.len())[off + i] == buf[pos + off + i]);
        assert(w.subrange(off, off + part.len())[i] == w[off + i]);
    }
    assert(buf.subrange(pos + off, pos + off + part.len()) =~= part);
}

/// One byte of what stands in a buffer stands in the buffer too.
proof fn lemma_byte(buf: Seq<u8>, pos: int, w: Seq<u8>, off: int)
    requires
        0 <= pos,
        pos + w.len() <= buf.len(),
        buf.subrange(pos, pos + w.len()) == w,
        0 <= off < w.len(),
    ensures
        buf[pos + off] == w[off],
{
    assert(buf.subrange(pos, pos + w.len())[off] == buf[pos + off]);
}

/// A header line, `<tag><text>\r\n`, at the start of what stands in a
/// buffer is read as the line `text`.
proof fn lemma_header(buf: Seq<u8>, pos: int, w: Seq<u8>, tag: u8, text: Seq<u8>)
    requires
        0 <= pos,
        pos + w.len() <= buf.len(),
        buf.subrange(pos, pos + w.len()) == w,
        is_line_text(text),
        text.len() + 3 <= w.len(),
        w.subrange(0, text.len() as int + 3) == seq![tag] + text + crlf(),
    ensures
        buf[pos] == tag,
        line_at(buf, pos + 1) == Line::Text(text, pos + 1 + text.len() + 2),
{
    let n = text.len() as int;
    let h = seq![tag] + text + crlf();
    assert(w[0] == h[0]);
    assert(w[n + 1] == h[n + 1]);
    assert(w[n + 2] == h[n + 2]);
    assert(w.subrange(1, 1 + n) =~= text) by {
        assert forall|i: int| 0 <= i < n implies w[1 + i] == text[i] by {
            assert(w[1 + i] == h[1 + i]);
        }
    }
    lemma_byte(buf, pos, w, 0);
    lemma_byte(buf, pos, w, n + 1);
    lemma_byte(buf, pos, w, n + 2);
    lemma_part(buf, pos, w, 1, text);
    lemma_line_of_text(buf, pos + 1, text);
}

proof fn lemma_string_at_wire(s: Seq<u8>, buf: Seq<u8>, pos: int)
    requires
        s.len() <= i64::MAX,
        0 <= pos,
        pos + bulk_string_wire(s).len() <= buf.len(),
        buf.subrange(pos, pos + bulk_string_wire(s).len()) == bulk_string_wire(s),
    ensures
        buf[pos] == 36,
        bulk_string_at(buf, pos + 1) == Parsed::Frame(
            Frame::String(s),
            pos + bulk_string_wire(s).len(),
        ),
{
    let w = bulk_string_wire(s);
    let head = decimal_digits(s.len());
    let n = s.len() as int;
    let h = head.len() as int;
    lemma_numeral_is_line_text(n);
    lemma_decimal_round_trip(n);
    assert(w.subrange(0, h + 3) =~= seq![36u8] + head + crlf());
    lemma_header(buf, pos, w, 36u8, head);
    assert(w.subrange(h + 3, h + 3 + n) =~= s);
    lemma_part(buf, pos, w, h + 3, s);
    lemma_byte(buf, pos, w, h + 3 + n);
    lemma_byte(buf, pos, w, h + 3 + n + 1);
    assert(decimal_text(n) == head);
    assert(i64_value(head) == Some(n as i64));
}

proof fn lemma_error_at_wire(s: Seq<u8>, buf: Seq<u8>, pos: int)
    requires
        is_line_text(s),
        0 <= pos,
        pos + error_wire(s).len() <= buf.len(),
        buf.subrange(pos, pos + error_wire(s).len()) == error_wire(s),
    ensures
        buf[pos] == 45,
        error_at(buf, pos + 1) == Parsed::Frame(Frame::Error(s), pos + error_wire(s).len()),
{
    let w = error_wire(s);
    assert(w.subrange(0, s.len() as int + 3) =~= seq![45u8] + s + crlf());
    lemma_header(buf, pos, w, 45u8, s);
}

proof fn lemma_int_at_wire(n: i64, buf: Seq<u8>, pos: int)
    requires
        0 <= pos,
        pos + int_wire(n as int).len() <= buf.len(),
        buf.subrange(pos, pos + int_wire(n as int).len()) == int_wire(n as int),
    ensures
        buf[pos] == 58,
        int_at(buf, pos + 1) == Parsed::Frame(Frame::Int(n), pos + int_wire(n as int).len()),
{
    let w = int_wire(n as int);
    let text = decimal_text(n as int);
    lemma_numeral_is_line_text(n as int);
    lemma_decimal_round_trip(n as int);
    assert(w.subrange(0, text.len() as int + 3) =~= seq![58u8] + text + crlf());
    lemma_header(buf, pos, w, 58u8, text);
}

proof fn lemma_null_at_wire(tag: u8, w: Seq<u8>, buf: Seq<u8>, pos: int)
    requires
        w == seq![tag, 45u8, 49u8, CR, LF],
        0 <= pos,
        pos + 5 <= buf.len(),
        buf.subrange(pos, pos + 5) == w,
    ensures
        buf[pos] == tag,
        line_at(buf, pos + 1) == Line::Text(seq![45u8, 49u8], pos + 5),
        i64_value(seq![45u8, 49u8]) == Some(-1i64),
{
    let text = seq![45u8, 49u8];
    assert(w.subrange(0, 5) =~= seq![tag] + text + crlf());
    lemma_header(buf, pos, w, tag, text);
    lemma_minus_one(text);
}

/// The header of an array on the wire is read as its count.
proof fn lemma_array_header(items: Seq<Frame>, buf: Seq<u8>, pos: int)
    requires
        items.len() <= i64::MAX,
        0 <= pos,
        pos + wire(Frame::Array(items)).len() <= buf.len(),
        buf.subrange(pos, pos + wire(Frame::Array(items)).len()) == wire(Frame::Array(items)),
    ensures
        buf[pos] == 42,
        line_at(buf, pos + 1) == Line::Text(
            decimal_digits(items.len()),
            pos + decimal_digits(items.len()).len() + 3,
        ),
        i64_value(decimal_digits(items.len())) == Some(items.len() as i64),
        wire(Frame::Array(items)).len() == decimal_digits(items.len()).len() + 3 + wire_all(
            items,
        ).len(),
        buf.subrange(
            pos + decimal_digits(items.len()).len() + 3,
            pos + decimal_digits(items.len()).len() + 3 + wire_all(items).len(),
        ) == wire_all(items),
{
    let w = wire(Frame::Array(items));
    let head = decimal_digits(items.len());
    let h = head.len() as int;
    lemma_numeral_is_line_text(items.len() as int);
    lemma_decimal_round_trip(items.len() as int);
    assert(w.subrange(0, h + 3) =~= seq![42u8] + head + crlf());
    lemma_header(buf, pos, w, 42u8, head);
    let body = wire_all(items);
    assert(w.subrange(h + 3, h + 3 + body.len() as int) =~= body);
    lemma_part(buf, pos, w, h + 3, body);
    assert(decimal_text(items.len() as int) == head);
}

/// The parser reads a frame back from wherever its bytes stand in a
/// buffer, and ends just behind them.
pub proof fn lemma_frame_at_wire(f: Frame, buf: Seq<u8>, pos: int)
    requires
        well_formed(f),
        0 <= pos,
        pos + wire(f).len() <= buf.len(),
        buf.subrange(pos, pos + wire(f).len()) == wire(f),
    ensures
        frame_at(buf, pos) == Parsed::Frame(f, pos + wire(f).len()),
    decreases f, 0nat,
{
    match f {
        Frame::String(s) => {
            lemma_string_at_wire(s, buf, pos);
        },
        Frame::Error(s) => {
            lemma_error_at_wire(s, buf, pos);
        },
        Frame::Int(n) => {
            lemma_int_at_wire(n, buf, pos);
        },
        Frame::Array(items) => {
            lemma_array_header(items, buf, pos);
            lemma_frames_at_wire(items, buf, pos + decimal_digits(items.len()).len() + 3);
        },
        Frame::NullArray => {
            lemma_null_at_wire(42u8, wire(f), buf, pos);
        },
        Frame::NullBulkString => {
            lemma_null_at_wire(36u8, wire(f), buf, pos);
        },
    }
}

proof fn lemma_minus_one(text: Seq<u8>)
    requires
        text == seq![45u8, 49u8],
    ensures
        i64_value(text) == Some(-1i64),
{
    let d = text.subrange(1, 2);
    assert(d =~= seq![49u8]);
    assert(d.drop_last() =~= Seq::<u8>::empty());
    assert(super::decimal::digits_value(d.drop_last()) == 0);
    assert(super::decimal::digits_value(d) == 1);
    assert(all_digits(d));
}

/// The parser reads a run of frames back from wherever their bytes stand
/// in a buffer.
pub proof fn lemma_frames_at_wire(items: Seq<Frame>, buf: Seq<u8>, pos: int)
    requires
        forall|i: int| 0 <= i < items.len() ==> well_formed(#[trigger] items[i]),
        0 <= pos,
        pos + wire_all(items).len() <= buf.len(),
        buf.subrange(pos, pos + wire_all(items).len()) == wire_all(items),
    ensures
        frames_at(buf, pos, items.len()) == ParsedRun::Frames(items, pos + wire_all(items).len()),
    decreases items, 1nat,
{
    if items.len() == 0 {
        assert(items =~= Seq::<Frame>::empty());
    } else {
        let first = items[0];
        let rest = items.drop_first();
        let w = wire_all(items);
        let mid = pos + wire(first).len();
        assert(w.subrange(0, wire(first).len() as int) =~= wire(first));
        lemma_part(buf, pos, w, 0, wire(first));
        assert(w.subrange(wire(first).len() as int, w.len() as int) =~= wire_all(rest));
        lemma_part(buf, pos, w, wire(first).len() as int, wire_all(rest));
        assert(well_formed(first));
        assert forall|i: int| 0 <= i < rest.len() implies well_formed(#[trigger] rest[i]) by {
            assert(rest[i] == items[i + 1]);
        }
        lemma_frame_at_wire(first, buf, pos);
        lemma_wire_nonempty(first);
        lemma_frames_at_wire(rest, buf, mid);
        assert(seq![first] + rest =~= items);
    }
}

/// Every frame takes at least one byte on the wire.
pub proof fn lemma_wire_nonempty(f: Frame)
    ensures
        wire(f).len() > 0,
{
}

/// The bytes of a run with one more frame at its end.
pub proof fn lemma_wire_all_push(items: Seq<Frame>, last: Frame)
    ensures
        wire_all(items.push(last)) == wire_all(items) + wire(last),
    decreases items.len(),
{
    let grown = items.push(last);
    if items.len() == 0 {
        assert(grown.drop_first() =~= Seq::<Frame>::empty());
        assert(wire_all(grown) =~= wire(last) + wire_all(Seq::<Frame>::empty()));
        assert(wire_all(grown) =~= wire_all(items) + wire(last));
    } else {
        assert(grown.drop_first() =~= items.drop_first().push(last));
        lemma_wire_all_push(items.drop_first(), last);
        assert(wire_all(grown) =~= wire_all(items) + wire(last));
    }
}

impl RespType {
    /// Appends the bytes of this frame to `out`.
    #[verifier::loop_isolation(false)]
    pub fn encode_into(&self, out: &mut Vec<u8>)
        ensures
            final(out)@ == old(out)@ + wire(self@),
        decreases self,
    {
        match self {
            RespType::String(s) => {
                out.push(36u8);
                push_decimal(out, s.len() as u128);
                out.push(CR);
                out.push(LF);
                out.extend_from_slice(s.as_slice());
                out.push(CR);
                out.push(LF);
                assert(out@ =~= old(out)@ + wire(self@));
            },
            RespType::Error(s) => {
                out.push(45u8);
                out.extend_from_slice(s.as_slice());
                out.push(CR);
                out.push(LF);
                assert(out@ =~= old(out)@ + wire(self@));
            },
            RespType::Int(n) => {
                out.push(58u8);
                push_int(out, *n);
                out.push(CR);
                out.push(LF);
                assert(out@ =~= old(out)@ + wire(self@));
            },
            RespType::Array(items) => {
                out.push(42u8);
                push_decimal(out, items.len() as u128);
                out.push(CR);
                out.push(LF);
                let ghost head = out@;
                let mut i: usize = 0;
                while i < items.len()
                    invariant
                        i <= items.len(),
                        out@ == head + wire_all(frames_of(items@).subrange(0, i as int)),
                    decreases items.len() - i,
                {
                    proof {
                        let done = frames_of(items@).subrange(0, i as int);
                        assert(frames_of(items@).subrange(0, i + 1) =~= done.push(
                            items[i as int]@,
                        ));
                        lemma_wire_all_push(done, items[i as int]@);
                    }
                    items[i].encode_into(out);
                    assert(out@ =~= head + wire_all(frames_of(items@).subrange(0, i + 1)));
                    i = i + 1;
                }
                proof {
                    assert(frames_of(items@).subrange(0, items.len() as int) =~= frames_of(items@));
                    lemma_array_view(*items);
                    assert(out@ =~= old(out)@ + wire(self@));
                }
            },
            RespType::NullArray => {
                out.push(42u8);
                out.push(45u8);
                out.push(49u8);
                out.push(CR);
                out.push(LF);
                assert(out@ =~= old(out)@ + wire(self@));
            },
            RespType::NullBulkString => {
                out.push(36u8);
                out.push(45u8);
                out.push(49u8);
                out.push(CR);
                out.push(LF);
                assert(out@ =~= old(out)@ + wire(self@));
            },
        }
    }

    /// The bytes that stand for this frame on the wire.
    pub fn encode(&self) -> (out: Vec<u8>)
        ensures
            out@ == wire(self@),
    {
        let mut out: Vec<u8> = Vec::new();
        self.encode_into(&mut out);
        out
    }
}

/// Reading what was written gives the frame back, together with the
/// number of bytes written: for every well-formed frame `f`, parsing
/// `wire(f)` from its start yields `f` and the length of `wire(f)`.
pub proof fn law_parse_round_trip(f: Frame)
    requires
        well_formed(f),
    ensures
        frame_at(wire(f), 0) == Parsed::Frame(f, wire(f).len() as int),
{
    assert(wire(f).subrange(0, wire(f).len() as int) =~= wire(f));
    lemma_frame_at_wire(f, wire(f), 0);
}

} // verus!
