//! Incremental decoding of response payloads.
//!
//! A [`Context`] is fed the bytes of a payload received so far, from its
//! first byte on, and answers with the response once it is complete, or
//! with a number of bytes to read before feeding it again. Feeding it a
//! longer buffer with the same beginning resumes where it stopped.

use super::{Response, ResponseType, ResponseView};
use crate::codec::{from_be16, from_be32, from_be64, read_be16, read_be32, read_be64};
use crate::command::error::Error as DispatchError;
use crate::command::request::context::extends;
use crate::command::request::str_from_utf8;
use crate::command::request::ParseError as RequestParseError;
use crate::state::dash::{byte_map_contents, byte_map_insert, byte_map_len, byte_map_new, byte_set_contents, byte_set_insert, byte_set_len, byte_set_new};
use crate::state::value::{copy_bytes, list_view, Value, ValueView};
use dashmap::{DashMap, DashSet};
use vstd::prelude::*;
use vstd::utf8::{decode_utf8, valid_utf8};

verus! {

/// Why a payload could not be decoded.
#[derive(Clone, Copy, Debug, PartialEq, Eq, Hash, Structural)]
pub enum ParseError {
    DispatchErrorInvalid,
    ParseErrorInvalid,
    /// The payload is too large. The command should have been sent as multiple
    /// appends.
    ///
    /// The state of the connection is now unknown due to an unknown amount of
    /// data and possible list commands, so the connection needs to be
    /// re-initiated. The session can be resumed.
    PayloadTooLarge,
    ResponseTypeInvalid,
    /// The string isn't valid UTF-8.
    StringInvalid,
}

/// What feeding a context answers.
#[derive(Debug)]
pub enum Instruction {
    /// The payload is complete.
    Concluded(Response),
    /// Read this many more bytes, then feed the context again.
    ReadBytes(usize),
}

/// How far the decoding of a payload has come.
#[derive(Debug)]
pub enum Stage {
    Init,
    /// The type is known, and now the length of the following types is read:
    /// bytes, list, map, set and string.
    TypeInit { kind: ResponseType, read_len: usize },
    Boolean,
    Bytes { len: u32 },
    Float,
    Integer,
    List { args: Vec<Vec<u8>>, len: u16 },
    ByteMap { map: DashMap<Vec<u8>, Vec<u8>>, len: u16 },
    DispatchError,
    ParseError,
    ByteSet { set: DashSet<Vec<u8>>, len: u16 },
    String { len: u32 },
}

/// What a stage is, mathematically.
pub enum StageView {
    Init,
    TypeInit { kind: ResponseType, read_len: usize },
    Boolean,
    Bytes { len: u32 },
    Float,
    Integer,
    List { items: Seq<Seq<u8>>, len: u16 },
    ByteMap { map: Map<Seq<u8>, Seq<u8>>, len: u16 },
    DispatchError,
    ParseError,
    ByteSet { set: Set<Seq<u8>>, len: u16 },
    String { len: u32 },
}

impl View for Stage {
    type V = StageView;

    open spec fn view(&self) -> StageView {
        match self {
            Stage::Init => StageView::Init,
            Stage::TypeInit { kind, read_len } => StageView::TypeInit { kind: *kind, read_len: *read_len },
            Stage::Boolean => StageView::Boolean,
            Stage::Bytes { len } => StageView::Bytes { len: *len },
            Stage::Float => StageView::Float,
            Stage::Integer => StageView::Integer,
            Stage::List { args, len } => StageView::List { items: list_view(args@), len: *len },
            Stage::ByteMap { map, len } => StageView::ByteMap { map: byte_map_contents(*map), len: *len },
            Stage::DispatchError => StageView::DispatchError,
            Stage::ParseError => StageView::ParseError,
            Stage::ByteSet { set, len } => StageView::ByteSet { set: byte_set_contents(*set), len: *len },
            Stage::String { len } => StageView::String { len: *len },
        }
    }
}

/// The outcome of decoding a payload.
pub enum Decoded {
    /// The payload is complete.
    Concluded(ResponseView),
    /// This many more bytes are asked for.
    ReadBytes(usize),
    /// The payload cannot be decoded.
    Invalid(ParseError),
    /// The payload holds an error code that no error has; decoding it is a
    /// programming error.
    Unreadable,
}

/// `start + to_read - read`, each step saturating.
pub open spec fn spec_remaining(start: usize, read: usize, to_read: usize) -> usize {
    start.saturating_add(to_read).saturating_sub(read)
}

/// The number of bytes still to read of `to_read` bytes from `start`, when
/// `read` bytes are read.
pub fn remaining_bytes(start: usize, read: usize, to_read: usize) -> (r: usize)
    ensures
        r == spec_remaining(start, read, to_read),
{
    start.saturating_add(to_read).saturating_sub(read)
}

/// The answer when a field ends at `end`, past the `n` bytes at hand: the
/// bytes that are missing up to its end, or that the payload is too large
/// when its end lies past the largest index.
pub open spec fn missing(end: int, n: int) -> Decoded {
    if end > usize::MAX {
        Decoded::Invalid(ParseError::PayloadTooLarge)
    } else {
        Decoded::ReadBytes((end - n) as usize)
    }
}

pub open spec fn boolean_stage(buf: Seq<u8>, idx: int) -> Decoded {
    if 0 <= idx < buf.len() {
        Decoded::Concluded(ResponseView::Value(ValueView::Boolean(buf[idx] != 0)))
    } else {
        Decoded::ReadBytes(1)
    }
}

pub open spec fn float_stage(buf: Seq<u8>, idx: int) -> Decoded {
    if 0 <= idx && idx + 8 <= buf.len() {
        Decoded::Concluded(ResponseView::Value(ValueView::Float(from_be64(buf.subrange(idx, idx + 8)))))
    } else {
        Decoded::ReadBytes(1)
    }
}

pub open spec fn integer_stage(buf: Seq<u8>, idx: int) -> Decoded {
    if 0 <= idx && idx + 8 <= buf.len() {
        Decoded::Concluded(
            ResponseView::Value(ValueView::Integer(from_be64(buf.subrange(idx, idx + 8)) as i64)),
        )
    } else {
        Decoded::ReadBytes(1)
    }
}

pub open spec fn dispatch_error_stage(buf: Seq<u8>, idx: int) -> Decoded {
    if 0 <= idx < buf.len() {
        match DispatchError::spec_from_u8(buf[idx]) {
            Some(e) => Decoded::Concluded(ResponseView::DispatchError(e)),
            None => Decoded::Unreadable,
        }
    } else {
        Decoded::ReadBytes(1)
    }
}

pub open spec fn parse_error_stage(buf: Seq<u8>, idx: int) -> Decoded {
    if 0 <= idx < buf.len() {
        match RequestParseError::spec_from_u8(buf[idx]) {
            Some(e) => Decoded::Concluded(ResponseView::ParseError(e)),
            None => Decoded::Unreadable,
        }
    } else {
        Decoded::ReadBytes(1)
    }
}

pub open spec fn bytes_stage(buf: Seq<u8>, idx: int, len: u32) -> Decoded {
    if idx + len <= buf.len() {
        Decoded::Concluded(ResponseView::Value(ValueView::Bytes(buf.subrange(idx, idx + len))))
    } else {
        missing(idx + len, buf.len() as int)
    }
}

pub open spec fn string_stage(buf: Seq<u8>, idx: int, len: u32) -> Decoded {
    if idx + len <= buf.len() {
        let bytes = buf.subrange(idx, idx + len);
        if valid_utf8(bytes) {
            Decoded::Concluded(ResponseView::Value(ValueView::String(decode_utf8(bytes))))
        } else {
            Decoded::Invalid(ParseError::StringInvalid)
        }
    } else {
        missing(idx + len, buf.len() as int)
    }
}

/// Decoding list items from `idx` on, `items` decoded so far.
pub open spec fn list_stage(buf: Seq<u8>, idx: int, items: Seq<Seq<u8>>, len: u16) -> Decoded
    decreases buf.len() - idx,
{
    if idx + 4 > buf.len() {
        missing(idx + 4, buf.len() as int)
    } else {
        let end = idx + 4 + from_be32(buf.subrange(idx, idx + 4));
        if end > buf.len() {
            missing(end, buf.len() as int)
        } else {
            let items2 = items.push(buf.subrange(idx + 4, end));
            if items2.len() < len {
                list_stage(buf, end, items2, len)
            } else {
                Decoded::Concluded(ResponseView::Value(ValueView::List(items2)))
            }
        }
    }
}

/// Decoding map entries from `idx` on, `m` decoded so far.
pub open spec fn map_stage(buf: Seq<u8>, idx: int, m: Map<Seq<u8>, Seq<u8>>, len: u16) -> Decoded
    decreases buf.len() - idx,
{
    if idx + 1 > buf.len() {
        missing(idx + 1, buf.len() as int)
    } else {
        let key_value_end = idx + 1 + buf[idx];
        let value_size_end = key_value_end + 4;
        if key_value_end > buf.len() {
            missing(key_value_end, buf.len() as int)
        } else if value_size_end > buf.len() {
            missing(value_size_end, buf.len() as int)
        } else {
            let value_end = value_size_end + from_be32(buf.subrange(key_value_end, value_size_end));
            if value_end > buf.len() {
                missing(value_end, buf.len() as int)
            } else {
                let m2 = m.insert(
                    buf.subrange(idx + 1, key_value_end),
                    buf.subrange(value_size_end, value_end),
                );
                if m2.len() < len {
                    map_stage(buf, value_end, m2, len)
                } else {
                    Decoded::Concluded(ResponseView::Value(ValueView::ByteMap(m2)))
                }
            }
        }
    }
}

/// Decoding set items from `idx` on, `s` decoded so far.
pub open spec fn set_stage(buf: Seq<u8>, idx: int, s: Set<Seq<u8>>, len: u16) -> Decoded
    decreases buf.len() - idx,
{
    if idx + 2 > buf.len() {
        missing(idx + 2, buf.len() as int)
    } else {
        let end = idx + 2 + from_be16(buf.subrange(idx, idx + 2));
        if end > buf.len() {
            missing(end, buf.len() as int)
        } else {
            let s2 = s.insert(buf.subrange(idx + 2, end));
            if s2.len() < len {
                set_stage(buf, end, s2, len)
            } else {
                Decoded::Concluded(ResponseView::Value(ValueView::ByteSet(s2)))
            }
        }
    }
}

/// Decoding once the length field of a bytes, list, map, set or string
/// payload, `read_len` bytes from `idx`, is next. A count or length of
/// zero concludes at once.
pub open spec fn type_init_stage(buf: Seq<u8>, kind: ResponseType, read_len: int, idx: int) -> Decoded {
    if idx + read_len > buf.len() {
        missing(idx + read_len, buf.len() as int)
    } else {
        let next = idx + read_len;
        match kind {
            ResponseType::Bytes => bytes_stage(buf, next, from_be32(buf.subrange(idx, next))),
            ResponseType::List => {
                let len = from_be16(buf.subrange(idx, next));
                if len == 0 {
                    Decoded::Concluded(ResponseView::Value(ValueView::List(Seq::empty())))
                } else {
                    list_stage(buf, next, Seq::empty(), len)
                }
            },
            ResponseType::ByteMap => {
                let len = from_be16(buf.subrange(idx, next));
                if len == 0 {
                    Decoded::Concluded(ResponseView::Value(ValueView::ByteMap(Map::empty())))
                } else {
                    map_stage(buf, next, Map::empty(), len)
                }
            },
            ResponseType::ByteSet => {
                let len = from_be16(buf.subrange(idx, next));
                if len == 0 {
                    Decoded::Concluded(ResponseView::Value(ValueView::ByteSet(Set::empty())))
                } else {
                    set_stage(buf, next, Set::empty(), len)
                }
            },
            ResponseType::String => {
                let len = from_be32(buf.subrange(idx, next));
                if len == 0 {
                    Decoded::Concluded(ResponseView::Value(ValueView::String(Seq::empty())))
                } else {
                    string_stage(buf, next, len)
                }
            },
            _ => Decoded::Unreadable,
        }
    }
}

/// Decoding a payload from its first byte.
pub open spec fn decode_payload(buf: Seq<u8>) -> Decoded {
    if buf.len() == 0 {
        Decoded::ReadBytes(1)
    } else {
        match ResponseType::spec_from_u8(buf[0]) {
            None => Decoded::Invalid(ParseError::ResponseTypeInvalid),
            Some(kind) => match kind {
                ResponseType::Boolean => boolean_stage(buf, 1),
                ResponseType::Float => float_stage(buf, 1),
                ResponseType::Integer => integer_stage(buf, 1),
                ResponseType::List => type_init_stage(buf, kind, 2, 1),
                ResponseType::ByteMap => type_init_stage(buf, kind, 2, 1),
                ResponseType::ByteSet => type_init_stage(buf, kind, 2, 1),
                ResponseType::Bytes => type_init_stage(buf, kind, 4, 1),
                ResponseType::String => type_init_stage(buf, kind, 4, 1),
                ResponseType::DispatchError => dispatch_error_stage(buf, 1),
                ResponseType::ParseError => parse_error_stage(buf, 1),
            },
        }
    }
}

/// What a context is: how far it has come and where it is in the buffer.
pub struct ContextView {
    pub idx: usize,
    pub stage: StageView,
}

impl ContextView {
    pub open spec fn is_fresh(self) -> bool {
        self.stage == StageView::Init && self.idx == 0
    }

    /// Decoding `buf` from where the context stands.
    pub open spec fn resume(self, buf: Seq<u8>) -> Decoded {
        let idx = self.idx as int;
        match self.stage {
            StageView::Init => decode_payload(buf),
            StageView::TypeInit { kind, read_len } => type_init_stage(buf, kind, read_len as int, idx),
            StageView::Boolean => boolean_stage(buf, idx),
            StageView::Bytes { len } => bytes_stage(buf, idx, len),
            StageView::Float => float_stage(buf, idx),
            StageView::Integer => integer_stage(buf, idx),
            StageView::List { items, len } => list_stage(buf, idx, items, len),
            StageView::ByteMap { map, len } => map_stage(buf, idx, map, len),
            StageView::DispatchError => dispatch_error_stage(buf, idx),
            StageView::ParseError => parse_error_stage(buf, idx),
            StageView::ByteSet { set, len } => set_stage(buf, idx, set, len),
            StageView::String { len } => string_stage(buf, idx, len),
        }
    }

    /// The states that decoding reaches.
    pub open spec fn wf(self) -> bool {
        match self.stage {
            StageView::Init => self.idx == 0,
            StageView::TypeInit { kind, read_len } => self.idx == 1 && (((kind
                == ResponseType::List || kind == ResponseType::ByteMap || kind
                == ResponseType::ByteSet) && read_len == 2) || ((kind == ResponseType::Bytes
                || kind == ResponseType::String) && read_len == 4)),
            StageView::Bytes { .. } => self.idx == 5,
            StageView::String { .. } => self.idx == 5,
            StageView::List { .. } | StageView::ByteMap { .. } | StageView::ByteSet {
                ..
            } => self.idx >= 3,
            _ => self.idx == 1,
        }
    }

    /// How much decoding of a buffer of `n` bytes is left, at most.
    pub open spec fn progress(self, n: int) -> int {
        match self.stage {
            StageView::Init => n + 3,
            StageView::TypeInit { .. } => n + 2,
            StageView::List { .. } | StageView::ByteMap { .. } | StageView::ByteSet { .. } => if self.idx
                <= n {
                n - self.idx
            } else {
                0
            },
            _ => n + 1,
        }
    }
}

/// The decoding state of a response payload.
#[derive(Debug)]
pub struct Context {
    idx: usize,
    stage: Stage,
}

impl View for Context {
    type V = ContextView;

    closed spec fn view(&self) -> ContextView {
        ContextView { idx: self.idx, stage: self.stage@ }
    }
}

/// Decoding list items never meets an error code.
proof fn lemma_list_readable(buf: Seq<u8>, idx: int, items: Seq<Seq<u8>>, len: u16)
    ensures
        !(list_stage(buf, idx, items, len) is Unreadable),
    decreases buf.len() - idx,
{
    if idx + 4 <= buf.len() {
        let end = idx + 4 + from_be32(buf.subrange(idx, idx + 4)) as int;
        let items2 = items.push(buf.subrange(idx + 4, end));
        if end <= buf.len() && items2.len() < len {
            lemma_list_readable(buf, end, items2, len);
        }
    }
}

/// Decoding map entries never meets an error code.
proof fn lemma_map_readable(buf: Seq<u8>, idx: int, m: Map<Seq<u8>, Seq<u8>>, len: u16)
    ensures
        !(map_stage(buf, idx, m, len) is Unreadable),
    decreases buf.len() - idx,
{
    if idx + 1 <= buf.len() {
        let key_size_end = idx + 1;
        let key_value_end = key_size_end + buf[idx];
        let value_size_end = key_value_end + 4;
        if value_size_end <= buf.len() {
            let value_end = value_size_end + from_be32(buf.subrange(key_value_end, value_size_end))
                as int;
            let m2 = m.insert(
                buf.subrange(key_size_end, key_value_end),
                buf.subrange(value_size_end, value_end),
            );
            if value_end <= buf.len() && m2.len() < len {
                lemma_map_readable(buf, value_end, m2, len);
            }
        }
    }
}

/// Decoding set items never meets an error code.
proof fn lemma_set_readable(buf: Seq<u8>, idx: int, st: Set<Seq<u8>>, len: u16)
    ensures
        !(set_stage(buf, idx, st, len) is Unreadable),
    decreases buf.len() - idx,
{
    if idx + 2 <= buf.len() {
        let end = idx + 2 + from_be16(buf.subrange(idx, idx + 2)) as int;
        let s2 = st.insert(buf.subrange(idx + 2, end));
        if end <= buf.len() && s2.len() < len {
            lemma_set_readable(buf, end, s2, len);
        }
    }
}

/// Decoding the length field of a byte string, list, map, set or string
/// never meets an error code.
proof fn lemma_type_init_readable(buf: Seq<u8>, kind: ResponseType, read_len: int, idx: int)
    requires
        kind == ResponseType::Bytes || kind == ResponseType::List || kind == ResponseType::ByteMap
            || kind == ResponseType::ByteSet || kind == ResponseType::String,
    ensures
        !(type_init_stage(buf, kind, read_len, idx) is Unreadable),
{
    let next = idx + read_len;
    if next <= buf.len() {
        lemma_list_readable(buf, next, Seq::empty(), from_be16(buf.subrange(idx, next)));
        lemma_map_readable(buf, next, Map::empty(), from_be16(buf.subrange(idx, next)));
        lemma_set_readable(buf, next, Set::empty(), from_be16(buf.subrange(idx, next)));
    }
}

/// A part of `buf` is the same in any extension of it.
proof fn lemma_extend_subrange(b: Seq<u8>, buf: Seq<u8>, i: int, j: int)
    requires
        extends(b, buf),
        0 <= i <= j <= buf.len(),
    ensures
        b.subrange(i, j) == buf.subrange(i, j),
{
    assert(b.subrange(i, j) =~= buf.subrange(i, j)) by {
        assert forall|k: int| 0 <= k < j - i implies #[trigger] b.subrange(i, j)[k] == buf.subrange(
            i,
            j,
        )[k] by {
            assert(b.subrange(0, buf.len() as int)[i + k] == b[i + k]);
        }
    }
}

/// A byte of `buf` is the same in any extension of it.
proof fn lemma_extend_index(b: Seq<u8>, buf: Seq<u8>, i: int)
    requires
        extends(b, buf),
        0 <= i < buf.len(),
    ensures
        b[i] == buf[i],
{
    assert(b.subrange(0, buf.len() as int)[i] == b[i]);
}

/// The outcome of one step of decoding.
enum Step {
    /// The context moved on; decoding continues.
    Next,
    /// The payload is complete.
    Done(Response),
    /// This many more bytes are needed.
    Read(usize),
    /// The payload cannot be decoded.
    Failed(ParseError),
}

/// The answer when a field of `count` bytes from `start` ends past the `n`
/// bytes at hand.
fn missing_step(start: usize, count: usize, n: usize) -> (r: Step)
    requires
        start + count > n,
    ensures
        match r {
            Step::Read(k) => missing(start + count, n as int) == Decoded::ReadBytes(k),
            Step::Failed(e) => missing(start + count, n as int) == Decoded::Invalid(e),
            _ => false,
        },
{
    match start.checked_add(count) {
        Some(_) => Step::Read(remaining_bytes(start, n, count)),
        None => Step::Failed(ParseError::PayloadTooLarge),
    }
}

/// One step from `old` to `new` on `buf` kept the outcome on every extension
/// of `buf`, or ended decoding with that outcome.
spec fn step_ok(old: ContextView, new: ContextView, buf: Seq<u8>, r: Step) -> bool {
    match r {
        Step::Next => {
            &&& new.wf()
            &&& 0 <= new.progress(buf.len() as int) < old.progress(buf.len() as int)
            &&& forall|b: Seq<u8>| #[trigger] extends(b, buf) ==> new.resume(b) == old.resume(b)
        },
        Step::Done(resp) => old.resume(buf) == Decoded::Concluded(resp@),
        Step::Read(n) => {
            &&& new == old
            &&& old.resume(buf) == Decoded::ReadBytes(n)
        },
        Step::Failed(e) => {
            &&& new == old
            &&& old.resume(buf) == Decoded::Invalid(e)
        },
    }
}

impl Default for Context {
    /// A context that has decoded nothing.
    fn default() -> (r: Self)
        ensures
            r@.is_fresh(),
            r@.wf(),
    {
        Context::new()
    }
}

impl Context {
    /// A context that has decoded nothing.
    pub fn new() -> (r: Self)
        ensures
            r@.is_fresh(),
            r@.wf(),
    {
        Context { idx: 0, stage: Stage::Init }
    }

    /// Where the context stands in the buffer.
    pub fn idx(&self) -> (r: usize)
        ensures
            r == self@.idx,
    {
        self.idx
    }

    /// Whether feeding `buf` would meet an error code that no error has,
    /// which makes decoding panic.
    pub fn feed_panics(&self, buf: &[u8]) -> (r: bool)
        requires
            self@.wf(),
        ensures
            r == self@.resume(buf@) is Unreadable,
    {
        proof {
            let idx = self@.idx as int;
            match self@.stage {
                StageView::Init => {
                    if buf@.len() > 0 {
                        match ResponseType::spec_from_u8(buf@[0]) {
                            Some(kind) => {
                                lemma_type_init_readable(buf@, ResponseType::List, 2, 1);
                                lemma_type_init_readable(buf@, ResponseType::ByteMap, 2, 1);
                                lemma_type_init_readable(buf@, ResponseType::ByteSet, 2, 1);
                                lemma_type_init_readable(buf@, ResponseType::Bytes, 4, 1);
                                lemma_type_init_readable(buf@, ResponseType::String, 4, 1);
                            },
                            None => {},
                        }
                    }
                },
                StageView::TypeInit { kind, read_len } => {
                    lemma_type_init_readable(buf@, kind, read_len as int, idx);
                },
                StageView::List { items, len } => {
                    lemma_list_readable(buf@, idx, items, len);
                },
                StageView::ByteMap { map, len } => {
                    lemma_map_readable(buf@, idx, map, len);
                },
                StageView::ByteSet { set, len } => {
                    lemma_set_readable(buf@, idx, set, len);
                },
                _ => {},
            }
        }
        match self.stage {
            Stage::Init => {
                buf.len() >= 2 && ((buf[0] == 9u8 && DispatchError::try_from(buf[1]).is_err()) || (
                buf[0] == 8u8 && RequestParseError::try_from(buf[1]).is_err()))
            },
            Stage::DispatchError => self.idx < buf.len() && DispatchError::try_from(
                buf[self.idx],
            ).is_err(),
            Stage::ParseError => self.idx < buf.len() && RequestParseError::try_from(
                buf[self.idx],
            ).is_err(),
            _ => false,
        }
    }

    /// Whether the context has decoded nothing.
    pub fn is_fresh(&self) -> (r: bool)
        ensures
            r == self@.is_fresh(),
    {
        self.idx == 0 && match self.stage {
            Stage::Init => true,
            _ => false,
        }
    }

    /// Back to the state that has decoded nothing.
    fn reset(&mut self)
        ensures
            final(self)@.is_fresh(),
            final(self)@.wf(),
    {
        self.idx = 0;
        self.stage = Stage::Init;
    }

    /// Decodes the type byte.
    fn stage_init(&mut self, buf: &[u8]) -> (r: Step)
        requires
            old(self)@.wf(),
            old(self)@.stage == StageView::Init,
        ensures
            step_ok(old(self)@, final(self)@, buf@, r),
    {
        if buf.len() == 0 {
            return Step::Read(1);
        }
        let kind = match ResponseType::try_from(buf[0]) {
            Ok(k) => k,
            Err(_) => return Step::Failed(ParseError::ResponseTypeInvalid),
        };
        let ghost cur = self@;
        self.stage = match kind {
            ResponseType::Boolean => Stage::Boolean,
            ResponseType::Float => Stage::Float,
            ResponseType::Integer => Stage::Integer,
            ResponseType::List | ResponseType::ByteMap | ResponseType::ByteSet => Stage::TypeInit {
                kind,
                read_len: 2,
            },
            ResponseType::Bytes | ResponseType::String => Stage::TypeInit { kind, read_len: 4 },
            ResponseType::DispatchError => Stage::DispatchError,
            ResponseType::ParseError => Stage::ParseError,
        };
        self.idx = 1;
        assert forall|b: Seq<u8>| #[trigger] extends(b, buf@) implies self@.resume(b) == cur.resume(
            b,
        ) by {
            lemma_extend_index(b, buf@, 0);
        }
        Step::Next
    }

    /// Decodes a boolean.
    fn stage_boolean(&self, buf: &[u8]) -> (r: Step)
        requires
            self@.wf(),
            self@.stage == StageView::Boolean,
        ensures
            step_ok(self@, self@, buf@, r),
            !(r is Next),
    {
        if self.idx < buf.len() {
            Step::Done(Response::Value(Value::Boolean(buf[self.idx] != 0)))
        } else {
            Step::Read(1)
        }
    }

    /// Decodes an integer.
    fn stage_integer(&self, buf: &[u8]) -> (r: Step)
        requires
            self@.wf(),
            self@.stage == StageView::Integer,
        ensures
            step_ok(self@, self@, buf@, r),
            !(r is Next),
    {
        if self.idx <= buf.len() && buf.len() - self.idx >= 8 {
            Step::Done(Response::Value(Value::Integer(read_be64(buf, self.idx) as i64)))
        } else {
            Step::Read(1)
        }
    }

    /// Decodes a float, given by its bit pattern.
    fn stage_float(&self, buf: &[u8]) -> (r: Step)
        requires
            self@.wf(),
            self@.stage == StageView::Float,
        ensures
            step_ok(self@, self@, buf@, r),
            !(r is Next),
    {
        if self.idx <= buf.len() && buf.len() - self.idx >= 8 {
            Step::Done(Response::Value(Value::Float(read_be64(buf, self.idx))))
        } else {
            Step::Read(1)
        }
    }

    /// Decodes a dispatch error.
    fn stage_dispatch_error(&self, buf: &[u8]) -> (r: Step)
        requires
            self@.wf(),
            self@.stage == StageView::DispatchError,
            !(self@.resume(buf@) is Unreadable),
        ensures
            step_ok(self@, self@, buf@, r),
            !(r is Next),
    {
        if self.idx < buf.len() {
            match DispatchError::try_from(buf[self.idx]) {
                Ok(e) => Step::Done(Response::DispatchError(e)),
                Err(_) => vstd::pervasive::unreached(),
            }
        } else {
            Step::Read(1)
        }
    }

    /// Decodes a request parse error.
    fn stage_parse_error(&self, buf: &[u8]) -> (r: Step)
        requires
            self@.wf(),
            self@.stage == StageView::ParseError,
            !(self@.resume(buf@) is Unreadable),
        ensures
            step_ok(self@, self@, buf@, r),
            !(r is Next),
    {
        if self.idx < buf.len() {
            match RequestParseError::try_from(buf[self.idx]) {
                Ok(e) => Step::Done(Response::ParseError(e)),
                Err(_) => vstd::pervasive::unreached(),
            }
        } else {
            Step::Read(1)
        }
    }

    /// Decodes a byte string of `len` bytes.
    fn stage_bytes(&self, buf: &[u8], len: u32) -> (r: Step)
        requires
            self@.wf(),
            self@.stage == (StageView::Bytes { len }),
        ensures
            step_ok(self@, self@, buf@, r),
            !(r is Next),
    {
        let idx = self.idx;
        if idx > buf.len() || (len as usize) > buf.len() - idx {
            return missing_step(idx, len as usize, buf.len());
        }
        let bytes = copy_bytes(vstd::slice::slice_subrange(buf, idx, idx + len as usize));
        Step::Done(Response::Value(Value::Bytes(bytes)))
    }

    /// Decodes a string of `len` bytes.
    fn stage_string(&self, buf: &[u8], len: u32) -> (r: Step)
        requires
            self@.wf(),
            self@.stage == (StageView::String { len }),
        ensures
            step_ok(self@, self@, buf@, r),
            !(r is Next),
    {
        let idx = self.idx;
        if idx > buf.len() || (len as usize) > buf.len() - idx {
            return missing_step(idx, len as usize, buf.len());
        }
        match str_from_utf8(vstd::slice::slice_subrange(buf, idx, idx + len as usize)) {
            Some(s) => Step::Done(Response::Value(Value::String(s.to_owned()))),
            None => Step::Failed(ParseError::StringInvalid),
        }
    }

    /// Decodes the length field of a byte string, list, map, set or string.
    fn stage_type_init(&mut self, buf: &[u8], kind: ResponseType, read_len: usize) -> (r: Step)
        requires
            old(self)@.wf(),
            old(self)@.stage == (StageView::TypeInit { kind, read_len }),
        ensures
            step_ok(old(self)@, final(self)@, buf@, r),
    {
        if buf.len() < 1 + read_len {
            return Step::Read(1 + read_len - buf.len());
        }
        let ghost cur = self@;
        match kind {
            ResponseType::Bytes => {
                let len = read_be32(buf, 1);
                self.stage = Stage::Bytes { len };
            },
            ResponseType::List => {
                let len = read_be16(buf, 1);
                if len == 0 {
                    let args: Vec<Vec<u8>> = Vec::new();
                    assert(list_view(args@) =~= Seq::<Seq<u8>>::empty());
                    return Step::Done(Response::Value(Value::List(args)));
                }
                let args: Vec<Vec<u8>> = Vec::new();
                assert(list_view(args@) =~= Seq::<Seq<u8>>::empty());
                self.stage = Stage::List { args, len };
            },
            ResponseType::ByteMap => {
                let len = read_be16(buf, 1);
                if len == 0 {
                    return Step::Done(Response::Value(Value::map()));
                }
                self.stage = Stage::ByteMap { map: byte_map_new(), len };
            },
            ResponseType::ByteSet => {
                let len = read_be16(buf, 1);
                if len == 0 {
                    return Step::Done(Response::Value(Value::set()));
                }
                self.stage = Stage::ByteSet { set: byte_set_new(), len };
            },
            ResponseType::String => {
                let len = read_be32(buf, 1);
                if len == 0 {
                    return Step::Done(Response::Value(Value::string()));
                }
                self.stage = Stage::String { len };
            },
            _ => {
                return vstd::pervasive::unreached();
            },
        }
        self.idx = 1 + read_len;
        assert forall|b: Seq<u8>| #[trigger] extends(b, buf@) implies self@.resume(b) == cur.resume(
            b,
        ) by {
            lemma_extend_subrange(b, buf@, 1, 1 + read_len);
        }
        Step::Next
    }

    /// Decodes one item of a list.
    fn stage_list(&mut self, buf: &[u8]) -> (r: Step)
        requires
            old(self)@.wf(),
            old(self)@.stage is List,
        ensures
            step_ok(old(self)@, final(self)@, buf@, r),
    {
        let idx = self.idx;
        if idx > buf.len() || buf.len() - idx < 4 {
            return missing_step(idx, 4, buf.len());
        }
        let arg_len = read_be32(buf, idx) as usize;
        let arg_size_end = idx + 4;
        if arg_len > buf.len() - arg_size_end {
            return missing_step(arg_size_end, arg_len, buf.len());
        }
        let arg_value_end = arg_size_end + arg_len;
        let item = copy_bytes(vstd::slice::slice_subrange(buf, arg_size_end, arg_value_end));
        let ghost cur = self@;
        let mut stage = Stage::Init;
        std::mem::swap(&mut stage, &mut self.stage);
        match stage {
            Stage::List { mut args, len } => {
                let ghost items = list_view(args@);
                args.push(item);
                assert(list_view(args@) =~= items.push(item@));
                if args.len() < len as usize {
                    self.stage = Stage::List { args, len };
                    self.idx = arg_value_end;
                    assert forall|b: Seq<u8>| #[trigger] extends(b, buf@) implies self@.resume(b)
                        == cur.resume(b) by {
                        lemma_extend_subrange(b, buf@, idx as int, idx + 4);
                        lemma_extend_subrange(b, buf@, idx + 4, arg_value_end as int);
                    }
                    Step::Next
                } else {
                    Step::Done(Response::Value(Value::List(args)))
                }
            },
            _ => vstd::pervasive::unreached(),
        }
    }

    /// Decodes one item of a set.
    fn stage_set(&mut self, buf: &[u8]) -> (r: Step)
        requires
            old(self)@.wf(),
            old(self)@.stage is ByteSet,
        ensures
            step_ok(old(self)@, final(self)@, buf@, r),
    {
        let idx = self.idx;
        if idx > buf.len() || buf.len() - idx < 2 {
            return missing_step(idx, 2, buf.len());
        }
        let arg_len = read_be16(buf, idx) as usize;
        let arg_size_end = idx + 2;
        if arg_len > buf.len() - arg_size_end {
            return missing_step(arg_size_end, arg_len, buf.len());
        }
        let arg_value_end = arg_size_end + arg_len;
        let item = copy_bytes(vstd::slice::slice_subrange(buf, arg_size_end, arg_value_end));
        let ghost cur = self@;
        let mut stage = Stage::Init;
        std::mem::swap(&mut stage, &mut self.stage);
        match stage {
            Stage::ByteSet { mut set, len } => {
                byte_set_insert(&mut set, item);
                if byte_set_len(&set) < len as usize {
                    self.stage = Stage::ByteSet { set, len };
                    self.idx = arg_value_end;
                    assert forall|b: Seq<u8>| #[trigger] extends(b, buf@) implies self@.resume(b)
                        == cur.resume(b) by {
                        lemma_extend_subrange(b, buf@, idx as int, idx + 2);
                        lemma_extend_subrange(b, buf@, idx + 2, arg_value_end as int);
                    }
                    Step::Next
                } else {
                    Step::Done(Response::Value(Value::ByteSet(set)))
                }
            },
            _ => vstd::pervasive::unreached(),
        }
    }

    /// Decodes one entry of a map.
    fn stage_map(&mut self, buf: &[u8]) -> (r: Step)
        requires
            old(self)@.wf(),
            old(self)@.stage is ByteMap,
        ensures
            step_ok(old(self)@, final(self)@, buf@, r),
    {
        let idx = self.idx;
        if idx >= buf.len() {
            return missing_step(idx, 1, buf.len());
        }
        let key_len = buf[idx] as usize;
        let key_size_end = idx + 1;
        if key_len > buf.len() - key_size_end {
            return missing_step(key_size_end, key_len, buf.len());
        }
        let key_value_end = key_size_end + key_len;
        if buf.len() - key_value_end < 4 {
            return missing_step(key_value_end, 4, buf.len());
        }
        let value_size_end = key_value_end + 4;
        let value_len = read_be32(buf, key_value_end) as usize;
        if value_len > buf.len() - value_size_end {
            return missing_step(value_size_end, value_len, buf.len());
        }
        let value_end = value_size_end + value_len;
        let key = copy_bytes(vstd::slice::slice_subrange(buf, key_size_end, key_value_end));
        let value = copy_bytes(vstd::slice::slice_subrange(buf, value_size_end, value_end));
        let ghost cur = self@;
        let mut stage = Stage::Init;
        std::mem::swap(&mut stage, &mut self.stage);
        match stage {
            Stage::ByteMap { mut map, len } => {
                byte_map_insert(&mut map, key, value);
                if byte_map_len(&map) < len as usize {
                    self.stage = Stage::ByteMap { map, len };
                    self.idx = value_end;
                    assert forall|b: Seq<u8>| #[trigger] extends(b, buf@) implies self@.resume(b)
                        == cur.resume(b) by {
                        lemma_extend_index(b, buf@, idx as int);
                        lemma_extend_subrange(b, buf@, key_size_end as int, key_value_end as int);
                        lemma_extend_subrange(b, buf@, key_value_end as int, value_size_end as int);
                        lemma_extend_subrange(b, buf@, value_size_end as int, value_end as int);
                    }
                    Step::Next
                } else {
                    Step::Done(Response::Value(Value::ByteMap(map)))
                }
            },
            _ => vstd::pervasive::unreached(),
        }
    }

    /// Feeds the bytes of the payload received so far, from its first byte
    /// on.
    ///
    /// Answers the response once `buf` holds all of it, how many more bytes
    /// to read while it does not, and an error when `buf` cannot begin a
    /// payload. The answer is that of decoding `buf` from where the context
    /// stands (from the start, for a new context). Asking for more bytes or
    /// failing does not change the answer on any buffer that begins with
    /// `buf`; answering the response makes the context new again.
    pub fn feed(&mut self, buf: &[u8]) -> (r: Result<Instruction, ParseError>)
        requires
            old(self)@.wf(),
            !(old(self)@.resume(buf@) is Unreadable),
        ensures
            final(self)@.wf(),
            match r {
                Ok(Instruction::Concluded(resp)) => {
                    &&& old(self)@.resume(buf@) == Decoded::Concluded(resp@)
                    &&& final(self)@.is_fresh()
                },
                Ok(Instruction::ReadBytes(n)) => {
                    &&& old(self)@.resume(buf@) == Decoded::ReadBytes(n)
                    &&& forall|b: Seq<u8>| #[trigger]
                        extends(b, buf@) ==> final(self)@.resume(b) == old(self)@.resume(b)
                },
                Err(e) => {
                    &&& old(self)@.resume(buf@) == Decoded::Invalid(e)
                    &&& forall|b: Seq<u8>| #[trigger]
                        extends(b, buf@) ==> final(self)@.resume(b) == old(self)@.resume(b)
                },
            },
    {
        assert(extends(buf@, buf@)) by {
            assert(buf@.subrange(0, buf@.len() as int) =~= buf@);
        }
        loop
            invariant
                self@.wf(),
                    extends(buf@, buf@),
                !(old(self)@.resume(buf@) is Unreadable),
                forall|b: Seq<u8>| #[trigger]
                    extends(b, buf@) ==> self@.resume(b) == old(self)@.resume(b),
            decreases self@.progress(buf@.len() as int),
        {
            let step = match self.stage {
                Stage::Init => self.stage_init(buf),
                Stage::TypeInit { kind, read_len } => self.stage_type_init(buf, kind, read_len),
                Stage::Boolean => self.stage_boolean(buf),
                Stage::Bytes { len } => self.stage_bytes(buf, len),
                Stage::Float => self.stage_float(buf),
                Stage::Integer => self.stage_integer(buf),
                Stage::List { .. } => self.stage_list(buf),
                Stage::ByteMap { .. } => self.stage_map(buf),
                Stage::DispatchError => self.stage_dispatch_error(buf),
                Stage::ParseError => self.stage_parse_error(buf),
                Stage::ByteSet { .. } => self.stage_set(buf),
                Stage::String { len } => self.stage_string(buf, len),
            };
            match step {
                Step::Next => {},
                Step::Done(resp) => {
                    self.reset();
                    return Ok(Instruction::Concluded(resp));
                },
                Step::Read(n) => return Ok(Instruction::ReadBytes(n)),
                Step::Failed(e) => return Err(e),
            }
        }
    }
}

} // verus!
