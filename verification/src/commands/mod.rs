//! The commands, each with what it does to the shared state and what it
//! replies.

use crate::redis::instance::{Instance, State};
use crate::resp::wire::is_line_text;
use crate::resp::{bulk_string_wire, error_wire, simple_string_wire, views, CR, LF};
use vstd::prelude::*;
use vstd::string::{StrSliceExecFns, StringSliceAdditionalSpecFns};

pub mod blpop;
pub mod echo;
pub mod get;
pub mod incr;
pub mod info;
pub mod keys;
pub mod llen;
pub mod lpop;
pub mod lpush;
pub mod lrange;
pub mod ping;
pub mod psync;
pub mod publish;
pub mod replconf;
pub mod rpush;
pub mod set;
pub mod subscribe;
pub mod type_command;
pub mod unsubscribe;
pub mod wait;
pub mod xadd;
pub mod xrange;
pub mod xread;

verus! {

/// What running a command gives: the state after it and the reply. A
/// command that has to wait gives no reply and is to be run again later.
pub struct Outcome {
    pub state: State,
    pub reply: Option<Seq<u8>>,
}

/// The bytes of a reply, where there is one.
pub open spec fn reply_bytes(reply: Option<Vec<u8>>) -> Option<Seq<u8>> {
    match reply {
        Some(bytes) => Some(bytes@),
        None => None,
    }
}

/// A command with its arguments, ready to run on the shared state.
pub trait RedisCommand {
    /// What running the command at time `now` gives.
    spec fn outcome(&self, before: State, now: u128) -> Outcome;

    /// Runs the command at time `now`. `None` says that the command
    /// waits and is to be run again.
    fn execute(&self, instance: &mut Instance, now: u128) -> (reply: Option<Vec<u8>>)
        requires
            old(instance).wf(),
        ensures
            final(instance).wf(),
            final(instance)@ == self.outcome(old(instance)@, now).state,
            reply_bytes(reply) == self.outcome(old(instance)@, now).reply,
    ;
}

/// Until when a command waits.
#[derive(Debug, Clone, Copy, PartialEq, Eq, Structural)]
pub enum Deadline {
    /// The command waits for ever.
    Never,
    /// The command gives up once the time is behind this one.
    At(u128),
    /// The command does not wait.
    Passed,
}

/// Whether a deadline has passed at time `now`.
pub open spec fn passed(deadline: Deadline, now: u128) -> bool {
    match deadline {
        Deadline::Never => false,
        Deadline::At(at) => now > at,
        Deadline::Passed => true,
    }
}

impl Deadline {
    /// Whether the deadline has passed at time `now`.
    pub fn has_passed(&self, now: u128) -> (b: bool)
        ensures
            b == passed(*self, now),
    {
        match self {
            Deadline::Never => false,
            Deadline::At(at) => now > *at,
            Deadline::Passed => true,
        }
    }
}

/// The time `ms` milliseconds after `now`, or the last time there is.
pub open spec fn time_after(now: u128, ms: u128) -> u128 {
    if now + ms > u128::MAX {
        u128::MAX
    } else {
        (now + ms) as u128
    }
}

/// The time `ms` milliseconds after `now`, or the last time there is.
pub fn add_time(now: u128, ms: u128) -> (at: u128)
    ensures
        at == time_after(now, ms),
{
    if ms > u128::MAX - now {
        u128::MAX
    } else {
        now + ms
    }
}

/// The state with another table in place of its own.
pub open spec fn with_table(s: State, table: crate::redis::store::Table) -> State {
    State { table, ..s }
}

/// Each item as a bulk string.
pub open spec fn bulks(items: Seq<Seq<u8>>) -> Seq<Seq<u8>> {
    Seq::new(items.len(), |i: int| bulk_string_wire(items[i]))
}

/// Encodes `items[from..to]` as an array of bulk strings.
pub fn create_bulk_array_resp(items: &Vec<Vec<u8>>, from: usize, to: usize) -> (out: Vec<u8>)
    requires
        from <= to <= items.len(),
    ensures
        out@ == crate::resp::array_wire(bulks(views(items@).subrange(from as int, to as int))),
{
    let mut encoded: Vec<Vec<u8>> = Vec::new();
    let mut i: usize = from;
    while i < to
        invariant
            from <= i <= to <= items.len(),
            encoded.len() == i - from,
            forall|j: int|
                0 <= j < encoded.len() ==> (#[trigger] encoded[j])@ == bulk_string_wire(
                    items[from + j]@,
                ),
        decreases to - i,
    {
        encoded.push(crate::resp::create_bulk_string_resp(items[i].clone()));
        i = i + 1;
    }
    assert(views(encoded@) =~= bulks(views(items@).subrange(from as int, to as int)));
    crate::resp::create_array_resp(encoded)
}

/// Copies a list of byte strings.
pub fn copy_all(items: &Vec<Vec<u8>>) -> (out: Vec<Vec<u8>>)
    ensures
        views(out@) == views(items@),
{
    let mut out: Vec<Vec<u8>> = Vec::new();
    append_copies(&mut out, items);
    assert(views(out@) =~= views(items@));
    out
}

/// Appends copies of the items of `src` to `dst`.
pub fn append_copies(dst: &mut Vec<Vec<u8>>, src: &Vec<Vec<u8>>)
    ensures
        views(final(dst)@) == views(old(dst)@) + views(src@),
{
    let mut i: usize = 0;
    while i < src.len()
        invariant
            i <= src.len(),
            dst.len() == old(dst).len() + i,
            forall|j: int| 0 <= j < old(dst).len() ==> (#[trigger] dst[j])@ == old(dst)[j]@,
            forall|j: int|
                old(dst).len() <= j < dst.len() ==> (#[trigger] dst[j])@ == src[j - old(
                    dst,
                ).len()]@,
        decreases src.len() - i,
    {
        dst.push(src[i].clone());
        i = i + 1;
    }
    assert(views(dst@) =~= views(old(dst)@) + views(src@));
}

/// A list of connections without `id`.
pub open spec fn without(ids: Seq<Seq<u8>>, id: Seq<u8>) -> Seq<Seq<u8>> {
    if ids.contains(id) {
        ids.remove(ids.index_of(id))
    } else {
        ids
    }
}

/// A list of connections with `id`, at its end where it was not in it.
pub open spec fn with_id(ids: Seq<Seq<u8>>, id: Seq<u8>) -> Seq<Seq<u8>> {
    if ids.contains(id) {
        ids
    } else {
        ids.push(id)
    }
}

/// Adding a connection to a list that names none twice, or taking one
/// out of it, gives a list that names none twice.
pub proof fn lemma_ids_stay_distinct(ids: Seq<Seq<u8>>, id: Seq<u8>)
    requires
        ids.no_duplicates(),
    ensures
        with_id(ids, id).no_duplicates(),
        without(ids, id).no_duplicates(),
        !without(ids, id).contains(id),
{
    if ids.contains(id) {
        let at = ids.index_of(id);
        let rest = ids.remove(at);
        assert forall|i: int, j: int|
            0 <= i < rest.len() && 0 <= j < rest.len() && i != j implies rest[i] != rest[j] by {
            let a = if i < at {
                i
            } else {
                i + 1
            };
            let b = if j < at {
                j
            } else {
                j + 1
            };
            assert(rest[i] == ids[a]);
            assert(rest[j] == ids[b]);
        }
        assert forall|i: int| 0 <= i < rest.len() implies rest[i] != id by {
            let a = if i < at {
                i
            } else {
                i + 1
            };
            assert(rest[i] == ids[a]);
        }
    } else {
        let more = ids.push(id);
        assert forall|i: int, j: int|
            0 <= i < more.len() && 0 <= j < more.len() && i != j implies more[i] != more[j] by {
            if i < ids.len() && j < ids.len() {
                assert(more[i] == ids[i] && more[j] == ids[j]);
            } else if i < ids.len() {
                assert(ids.contains(ids[i]));
            } else {
                assert(ids.contains(ids[j]));
            }
        }
    }
}

/// The first position of `id` in a list of byte strings.
pub fn find_bytes(ids: &Vec<Vec<u8>>, id: &[u8]) -> (r: Option<usize>)
    ensures
        match r {
            Some(i) => i < ids.len() && ids[i as int]@ == id@ && views(ids@).contains(id@)
                && forall|j: int| 0 <= j < i ==> (#[trigger] ids[j])@ != id@,
            None => !views(ids@).contains(id@),
        },
{
    let mut i: usize = 0;
    while i < ids.len()
        invariant
            i <= ids.len(),
            forall|j: int| 0 <= j < i ==> (#[trigger] ids[j])@ != id@,
        decreases ids.len() - i,
    {
        if crate::redis::store::same_bytes(ids[i].as_slice(), id) {
            assert(views(ids@)[i as int] == id@);
            return Some(i);
        }
        i = i + 1;
    }
    assert forall|j: int| 0 <= j < views(ids@).len() implies views(ids@)[j] != id@ by {
        assert(ids[j]@ != id@);
    }
    None
}

/// A letter in lower case; any other byte as it is.
pub open spec fn lower(b: u8) -> u8 {
    if 65 <= b <= 90 {
        (b + 32) as u8
    } else {
        b
    }
}

/// A text with its letters in lower case.
pub open spec fn lowercase(s: Seq<u8>) -> Seq<u8> {
    Seq::new(s.len(), |i: int| lower(s[i]))
}

/// Whether two texts are equal but for the case of their letters.
pub open spec fn same_word(a: Seq<u8>, b: Seq<u8>) -> bool {
    lowercase(a) == lowercase(b)
}

/// Whether `arg` is the word `word`, in whatever case.
pub open spec fn is_word(arg: Seq<u8>, word: &str) -> bool {
    same_word(arg, ascii(word))
}

/// Whether `arg` is the word `word`, in whatever case.
pub fn matches_word(arg: &[u8], word: &str) -> (b: bool)
    ensures
        b == is_word(arg@, word),
{
    let w = word.as_bytes();
    if arg.len() != w.len() {
        assert(lowercase(arg@).len() != lowercase(w@).len());
        return false;
    }
    let mut i: usize = 0;
    while i < arg.len()
        invariant
            i <= arg.len(),
            arg.len() == w.len(),
            w@ == ascii(word),
            forall|j: int| 0 <= j < i ==> lower(arg@[j]) == lower(w@[j]),
        decreases arg.len() - i,
    {
        let a = if 65 <= arg[i] && arg[i] <= 90 {
            arg[i] + 32
        } else {
            arg[i]
        };
        let b = if 65 <= w[i] && w[i] <= 90 {
            w[i] + 32
        } else {
            w[i]
        };
        if a != b {
            assert(lowercase(arg@)[i as int] == a);
            assert(lowercase(w@)[i as int] == b);
            return false;
        }
        i = i + 1;
    }
    assert(lowercase(arg@) =~= lowercase(w@));
    true
}

/// One more than a count, as far as a machine word holds it.
pub open spec fn bump(count: nat) -> nat {
    if count < usize::MAX {
        count + 1
    } else {
        count
    }
}

/// The bytes of a text that is written in the source of this library.
pub open spec fn ascii(text: &str) -> Seq<u8> {
    text.spec_bytes()
}

/// The bytes of a text that is written in the source of this library.
pub fn bytes_of(text: &str) -> (out: Vec<u8>)
    ensures
        out@ == ascii(text),
{
    text.as_bytes_vec()
}

/// A value as a reply: a simple string where its bytes allow that, a bulk
/// string where they hold a CR or a LF.
pub open spec fn text_wire(value: Seq<u8>) -> Seq<u8> {
    if is_line_text(value) {
        simple_string_wire(value)
    } else {
        bulk_string_wire(value)
    }
}

/// The reply `+OK`.
pub open spec fn ok_wire() -> Seq<u8> {
    simple_string_wire(ascii("OK"))
}

/// The error of an operation on a key that holds another kind of value.
pub open spec fn wrong_type_wire() -> Seq<u8> {
    error_wire(ascii("WRONGTYPE Operation against a key holding the wrong kind of value"))
}

/// Whether `value` holds neither CR nor LF.
pub fn holds_no_break(value: &[u8]) -> (b: bool)
    ensures
        b == is_line_text(value@),
{
    let mut i: usize = 0;
    while i < value.len()
        invariant
            i <= value.len(),
            forall|j: int| 0 <= j < i ==> value@[j] != CR && value@[j] != LF,
        decreases value.len() - i,
    {
        if value[i] == CR || value[i] == LF {
            return false;
        }
        i = i + 1;
    }
    true
}

/// Encodes a value as a reply.
pub fn create_text_resp(value: &Vec<u8>) -> (out: Vec<u8>)
    ensures
        out@ == text_wire(value@),
{
    if holds_no_break(value.as_slice()) {
        crate::resp::create_simple_string_resp(value.clone())
    } else {
        crate::resp::create_bulk_string_resp(value.clone())
    }
}

/// Encodes the reply `+OK`.
pub fn create_ok_resp() -> (out: Vec<u8>)
    ensures
        out@ == ok_wire(),
{
    crate::resp::create_simple_string_resp(bytes_of("OK"))
}

/// Encodes the error of an operation on the wrong kind of value.
pub fn create_wrong_type_resp() -> (out: Vec<u8>)
    ensures
        out@ == wrong_type_wire(),
{
    crate::resp::create_basic_err_resp(
        bytes_of("WRONGTYPE Operation against a key holding the wrong kind of value"),
    )
}

} // verus!
