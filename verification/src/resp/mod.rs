//! Wire protocol: frames, their byte encoding and the pull parser.

use vstd::prelude::*;

pub mod buffer;
pub mod decimal;
pub mod types;
pub mod wire;

use decimal::{decimal_digits, decimal_text, push_decimal, push_int};

verus! {

/// Carriage return.
pub const CR: u8 = 13;

/// Line feed.
pub const LF: u8 = 10;

/// Why a buffer does not hold a frame at the position asked for.
#[derive(Debug, Clone, Copy, PartialEq, Eq, Structural)]
pub enum Fault {
    /// The buffer ends before the frame does.
    Incomplete,
    /// A simple string or an error whose line holds a stray CR or LF.
    SimpleString,
    /// An integer frame whose line is no 64-bit signed numeral.
    Integer,
    /// A bulk string with a bad length or without its closing line break.
    BulkString,
    /// An array with a bad count or with a malformed element.
    Array,
    /// A first byte that starts no frame.
    Type,
}

/// Why a buffer does not hold a frame at the position asked for, with a
/// message for the log.
#[derive(Debug)]
pub enum RespError {
    /// A bulk string with a bad length or without its closing line break.
    InvalidBulkString(String),
    /// A simple string or an error whose line holds a stray CR or LF.
    InvalidSimpleString(String),
    /// An array with a bad count or with a malformed element.
    InvalidArray(String),
    /// An integer frame whose line is no 64-bit signed numeral.
    InvalidInteger(String),
    /// The buffer ends before the frame does: more bytes may complete it.
    Incomplete,
    /// A first byte that starts no frame.
    Other(String),
}

/// The message that goes with a fault.
pub open spec fn fault_text(fault: Fault) -> Seq<char> {
    match fault {
        Fault::Incomplete => Seq::empty(),
        Fault::SimpleString => "Invalid value for simple string"@,
        Fault::Integer => "Invalid integer"@,
        Fault::BulkString => "Invalid bulk string"@,
        Fault::Array => "Invalid array"@,
        Fault::Type => "Invalid RESP data type"@,
    }
}

impl RespError {
    /// The message of this error.
    pub open spec fn text(&self) -> Seq<char> {
        match self {
            RespError::InvalidBulkString(m) => m@,
            RespError::InvalidSimpleString(m) => m@,
            RespError::InvalidArray(m) => m@,
            RespError::InvalidInteger(m) => m@,
            RespError::Incomplete => Seq::empty(),
            RespError::Other(m) => m@,
        }
    }

    /// Whether this error is the one that goes with a fault.
    pub open spec fn reports(&self, fault: Fault) -> bool {
        self.fault() == fault && self.text() == fault_text(fault)
    }

    /// The error that goes with a fault.
    pub fn new(fault: Fault) -> (e: RespError)
        ensures
            e.reports(fault),
    {
        match fault {
            Fault::Incomplete => RespError::Incomplete,
            Fault::SimpleString => RespError::InvalidSimpleString(
                "Invalid value for simple string".to_string(),
            ),
            Fault::Integer => RespError::InvalidInteger("Invalid integer".to_string()),
            Fault::BulkString => RespError::InvalidBulkString("Invalid bulk string".to_string()),
            Fault::Array => RespError::InvalidArray("Invalid array".to_string()),
            Fault::Type => RespError::Other("Invalid RESP data type".to_string()),
        }
    }

    /// The message of this error.
    pub fn message(&self) -> (m: String)
        ensures
            m@ == self.text(),
    {
        match self {
            RespError::InvalidBulkString(m) => m.clone(),
            RespError::InvalidSimpleString(m) => m.clone(),
            RespError::InvalidArray(m) => m.clone(),
            RespError::InvalidInteger(m) => m.clone(),
            RespError::Incomplete => String::new(),
            RespError::Other(m) => m.clone(),
        }
    }

    /// The fault that this error reports.
    pub open spec fn fault(&self) -> Fault {
        match self {
            RespError::InvalidBulkString(_) => Fault::BulkString,
            RespError::InvalidSimpleString(_) => Fault::SimpleString,
            RespError::InvalidArray(_) => Fault::Array,
            RespError::InvalidInteger(_) => Fault::Integer,
            RespError::Incomplete => Fault::Incomplete,
            RespError::Other(_) => Fault::Type,
        }
    }

    /// The fault that this error reports.
    pub fn kind(&self) -> (fault: Fault)
        ensures
            fault == self.fault(),
    {
        match self {
            RespError::InvalidBulkString(_) => Fault::BulkString,
            RespError::InvalidSimpleString(_) => Fault::SimpleString,
            RespError::InvalidArray(_) => Fault::Array,
            RespError::InvalidInteger(_) => Fault::Integer,
            RespError::Incomplete => Fault::Incomplete,
            RespError::Other(_) => Fault::Type,
        }
    }

    /// Whether reading again, once more bytes have arrived, can succeed.
    pub fn is_incomplete(&self) -> (b: bool)
        ensures
            b == (self.fault() == Fault::Incomplete),
    {
        match self {
            RespError::Incomplete => true,
            _ => false,
        }
    }
}

/// The line break that ends every frame header and every simple frame.
pub open spec fn crlf() -> Seq<u8> {
    seq![CR, LF]
}

/// `+<text>\r\n`
pub open spec fn simple_string_wire(text: Seq<u8>) -> Seq<u8> {
    seq![43u8] + text + crlf()
}

/// `-<text>\r\n`
pub open spec fn error_wire(text: Seq<u8>) -> Seq<u8> {
    seq![45u8] + text + crlf()
}

/// `$<len>\r\n<bytes>\r\n`
pub open spec fn bulk_string_wire(data: Seq<u8>) -> Seq<u8> {
    seq![36u8] + decimal_digits(data.len()) + crlf() + data + crlf()
}

/// `$-1\r\n`
pub open spec fn null_bulk_string_wire() -> Seq<u8> {
    seq![36u8, 45u8, 49u8, CR, LF]
}

/// `*-1\r\n`
pub open spec fn null_array_wire() -> Seq<u8> {
    seq![42u8, 45u8, 49u8, CR, LF]
}

/// `:<n>\r\n`
pub open spec fn int_wire(n: int) -> Seq<u8> {
    seq![58u8] + decimal_text(n) + crlf()
}

/// The concatenation of already encoded items.
pub open spec fn concat_all(items: Seq<Seq<u8>>) -> Seq<u8>
    decreases items.len(),
{
    if items.len() == 0 {
        Seq::empty()
    } else {
        concat_all(items.drop_last()) + items.last()
    }
}

/// `*<count>\r\n` followed by the items, each already encoded.
pub open spec fn array_wire(items: Seq<Seq<u8>>) -> Seq<u8> {
    seq![42u8] + decimal_digits(items.len()) + crlf() + concat_all(items)
}

/// `$<len>\r\n<bytes>` with no closing line break: the form in which a
/// snapshot follows a full resynchronisation reply.
pub open spec fn raw_payload_wire(data: Seq<u8>) -> Seq<u8> {
    seq![36u8] + decimal_digits(data.len()) + crlf() + data
}

/// The views of a list of byte strings.
pub open spec fn views(items: Seq<Vec<u8>>) -> Seq<Seq<u8>> {
    Seq::new(items.len(), |i: int| items[i]@)
}

/// Encodes `str` as a simple string.
pub fn create_simple_string_resp(str: Vec<u8>) -> (out: Vec<u8>)
    ensures
        out@ == simple_string_wire(str@),
{
    let mut out: Vec<u8> = Vec::new();
    out.push(43u8);
    out.extend_from_slice(str.as_slice());
    out.push(CR);
    out.push(LF);
    assert(out@ =~= simple_string_wire(str@));
    out
}

/// Encodes `str` as an error.
pub fn create_basic_err_resp(str: Vec<u8>) -> (out: Vec<u8>)
    ensures
        out@ == error_wire(str@),
{
    let mut out: Vec<u8> = Vec::new();
    out.push(45u8);
    out.extend_from_slice(str.as_slice());
    out.push(CR);
    out.push(LF);
    assert(out@ =~= error_wire(str@));
    out
}

/// Encodes `str` as a bulk string.
pub fn create_bulk_string_resp(str: Vec<u8>) -> (out: Vec<u8>)
    ensures
        out@ == bulk_string_wire(str@),
{
    let mut out: Vec<u8> = Vec::new();
    out.push(36u8);
    push_decimal(&mut out, str.len() as u128);
    out.push(CR);
    out.push(LF);
    out.extend_from_slice(str.as_slice());
    out.push(CR);
    out.push(LF);
    assert(out@ =~= bulk_string_wire(str@));
    out
}

/// Encodes the null bulk string.
pub fn create_null_bulk_string_resp() -> (out: Vec<u8>)
    ensures
        out@ == null_bulk_string_wire(),
{
    let mut out: Vec<u8> = Vec::new();
    out.push(36u8);
    out.push(45u8);
    out.push(49u8);
    out.push(CR);
    out.push(LF);
    assert(out@ =~= null_bulk_string_wire());
    out
}

/// Encodes `n` as an integer frame.
pub fn create_int_resp(n: i64) -> (out: Vec<u8>)
    ensures
        out@ == int_wire(n as int),
{
    let mut out: Vec<u8> = Vec::new();
    out.push(58u8);
    push_int(&mut out, n);
    out.push(CR);
    out.push(LF);
    assert(out@ =~= int_wire(n as int));
    out
}

/// Encodes a length or a count as an integer frame.
pub fn create_len_resp(n: usize) -> (out: Vec<u8>)
    ensures
        out@ == int_wire(n as int),
{
    let mut out: Vec<u8> = Vec::new();
    out.push(58u8);
    push_decimal(&mut out, n as u128);
    out.push(CR);
    out.push(LF);
    assert(out@ =~= int_wire(n as int));
    out
}

/// Encodes an array whose items are already encoded.
pub fn create_array_resp(items: Vec<Vec<u8>>) -> (out: Vec<u8>)
    ensures
        out@ == array_wire(views(items@)),
{
    let mut out: Vec<u8> = Vec::new();
    out.push(42u8);
    push_decimal(&mut out, items.len() as u128);
    out.push(CR);
    out.push(LF);
    let ghost head = out@;
    let mut i: usize = 0;
    while i < items.len()
        invariant
            i <= items.len(),
            out@ =~= head + concat_all(views(items@).subrange(0, i as int)),
        decreases items.len() - i,
    {
        proof {
            let next = views(items@).subrange(0, i + 1);
            assert(next.drop_last() =~= views(items@).subrange(0, i as int));
            assert(next.last() == items@[i as int]@);
        }
        out.extend_from_slice(items[i].as_slice());
        i = i + 1;
    }
    assert(views(items@).subrange(0, items.len() as int) =~= views(items@));
    assert(out@ =~= array_wire(views(items@)));
    out
}

} // verus!
