//! Incremental decoding of requests.
//!
//! The bytes of a request may arrive in pieces. A [`Context`] is fed the
//! bytes received so far, from the first byte of the request on, and
//! answers with the request once it is complete. Feeding it a longer buffer
//! with the same beginning resumes where it stopped.

use super::positions::{positions_clear, positions_clone, positions_len, positions_new, positions_of, positions_push, Positions};
use super::{Request, RequestView};
use crate::codec::{from_be32, read_be32};
use crate::command::command_id::CommandId;
use crate::state::KeyType;
use vstd::prelude::*;

verus! {

/// Why a request could not be decoded.
#[derive(Clone, Copy, Debug, PartialEq, Eq, Hash, Structural)]
pub enum ParseError {
    CommandIdInvalid,
    KeyTypeInvalid,
}

impl ParseError {
    pub open spec fn spec_code(self) -> u8 {
        match self {
            ParseError::CommandIdInvalid => 0,
            ParseError::KeyTypeInvalid => 1,
        }
    }

    pub open spec fn spec_from_u8(value: u8) -> Option<ParseError> {
        if value == 0 {
            Some(ParseError::CommandIdInvalid)
        } else if value == 1 {
            Some(ParseError::KeyTypeInvalid)
        } else {
            None
        }
    }

    /// The wire code of the error.
    pub fn as_u8(self) -> (r: u8)
        ensures
            r == self.spec_code(),
    {
        match self {
            ParseError::CommandIdInvalid => 0,
            ParseError::KeyTypeInvalid => 1,
        }
    }

    /// The error with the given wire code.
    pub fn try_from(value: u8) -> (r: Result<ParseError, ()>)
        ensures
            match ParseError::spec_from_u8(value) {
                Some(e) => r == Ok::<ParseError, ()>(e),
                None => r == Err::<ParseError, ()>(()),
            },
    {
        match value {
            0 => Ok(ParseError::CommandIdInvalid),
            1 => Ok(ParseError::KeyTypeInvalid),
            _ => Err(()),
        }
    }
}

/// How far the decoding of a request has come.
#[derive(Clone, Copy, Debug, PartialEq, Eq, Structural)]
pub enum Stage {
    /// Nothing is decoded yet.
    Init,
    /// The command is known and its key type byte is next.
    KeyType { command_id: CommandId },
    /// The command and key type are known and the argument count is next.
    Kind { command_id: CommandId, key_type: Option<KeyType> },
    /// Arguments are being decoded.
    ArgumentParsing { argument_count: u8, command_id: CommandId, key_type: Option<KeyType> },
}

/// The outcome of decoding a buffer.
pub enum Parsed {
    /// The buffer holds a complete request; `positions` are the positions of
    /// the last bytes of its arguments.
    Complete { command_id: CommandId, key_type: Option<KeyType>, positions: Seq<usize> },
    /// More bytes are needed.
    Incomplete,
    /// The buffer cannot begin a request.
    Invalid(ParseError),
}

/// `b` begins with the bytes of `buf`.
pub open spec fn extends(b: Seq<u8>, buf: Seq<u8>) -> bool {
    buf.len() <= b.len() && b.subrange(0, buf.len() as int) == buf
}

/// Decodes arguments from `idx` on until there are `count` positions, or
/// answers `None` when the buffer ends first.
pub open spec fn parse_args(buf: Seq<u8>, idx: int, count: int, positions: Seq<usize>) -> Option<
    Seq<usize>,
>
    decreases count - positions.len(),
{
    if positions.len() >= count {
        Some(positions)
    } else if idx < 0 || idx + 4 > buf.len() {
        None
    } else {
        let len = from_be32(buf.subrange(idx, idx + 4)) as int;
        if idx + 4 + len > buf.len() {
            None
        } else {
            parse_args(buf, idx + 4 + len, count, positions.push((idx + 3 + len) as usize))
        }
    }
}

/// Decoding from the argument count at `idx` on.
pub open spec fn parse_from_count(
    buf: Seq<u8>,
    command_id: CommandId,
    key_type: Option<KeyType>,
    idx: int,
) -> Parsed {
    if idx < 0 || idx >= buf.len() {
        Parsed::Incomplete
    } else {
        match parse_args(buf, idx + 1, buf[idx] as int, Seq::empty()) {
            Some(p) => Parsed::Complete { command_id, key_type, positions: p },
            None => Parsed::Incomplete,
        }
    }
}

/// Decoding once the command and the key type are known.
pub open spec fn parse_after_header(
    buf: Seq<u8>,
    command_id: CommandId,
    key_type: Option<KeyType>,
    idx: int,
) -> Parsed {
    if command_id.spec_is_simple() {
        Parsed::Complete { command_id, key_type, positions: Seq::empty() }
    } else {
        parse_from_count(buf, command_id, key_type, idx)
    }
}

/// Decoding from the key type byte on.
pub open spec fn parse_key_type(buf: Seq<u8>, command_id: CommandId) -> Parsed {
    if buf.len() < 2 {
        Parsed::Incomplete
    } else {
        match KeyType::spec_from_u8(buf[1]) {
            None => Parsed::Invalid(ParseError::KeyTypeInvalid),
            Some(k) => parse_after_header(buf, command_id, Some(k), 2),
        }
    }
}

/// Decoding a request from the first byte of `buf`.
pub open spec fn parse_request(buf: Seq<u8>) -> Parsed {
    if buf.len() == 0 {
        Parsed::Incomplete
    } else {
        match CommandId::spec_from_u8(buf[0] & 0x7fu8) {
            None => Parsed::Invalid(ParseError::CommandIdInvalid),
            Some(c) => if buf[0] & 0x80u8 != 0 {
                parse_key_type(buf, c)
            } else {
                parse_after_header(buf, c, None, 1)
            },
        }
    }
}

/// What a context is: how far it has come, where it is in the buffer and
/// the positions of the arguments decoded so far.
pub struct ContextView {
    pub idx: usize,
    pub positions: Seq<usize>,
    pub stage: Stage,
}

impl ContextView {
    /// A context that has decoded nothing.
    pub open spec fn is_fresh(self) -> bool {
        self.stage == Stage::Init && self.idx == 0 && self.positions.len() == 0
    }

    /// Decoding `buf` from where the context stands.
    pub open spec fn resume(self, buf: Seq<u8>) -> Parsed {
        match self.stage {
            Stage::Init => parse_request(buf),
            Stage::KeyType { command_id } => if self.idx > buf.len() {
                Parsed::Incomplete
            } else {
                parse_key_type(buf, command_id)
            },
            Stage::Kind { command_id, key_type } => parse_from_count(
                buf,
                command_id,
                key_type,
                self.idx as int,
            ),
            Stage::ArgumentParsing { argument_count, command_id, key_type } => match parse_args(
                buf,
                self.idx as int,
                argument_count as int,
                self.positions,
            ) {
                Some(p) => Parsed::Complete { command_id, key_type, positions: p },
                None => Parsed::Incomplete,
            },
        }
    }

    /// The states that decoding reaches.
    pub open spec fn wf(self) -> bool {
        match self.stage {
            Stage::Init => self.idx == 0 && self.positions.len() == 0,
            Stage::KeyType { .. } => self.idx == 1 && self.positions.len() == 0,
            Stage::Kind { command_id, .. } => self.positions.len() == 0 && !command_id.spec_is_simple(),
            Stage::ArgumentParsing { argument_count, command_id, .. } => self.positions.len()
                < argument_count && !command_id.spec_is_simple(),
        }
    }

    /// How much decoding is left, at most.
    pub open spec fn progress(self) -> int {
        match self.stage {
            Stage::Init => 1000,
            Stage::KeyType { .. } => 999,
            Stage::Kind { .. } => 998,
            Stage::ArgumentParsing { argument_count, .. } => argument_count - self.positions.len(),
        }
    }
}

/// The decoding state of a request.
#[derive(Debug)]
pub struct Context {
    idx: usize,
    positions: Positions,
    stage: Stage,
}

impl View for Context {
    type V = ContextView;

    closed spec fn view(&self) -> ContextView {
        ContextView { idx: self.idx, positions: positions_of(self.positions), stage: self.stage }
    }
}

/// Decoding an extension of `buf` from the argument count on goes as on
/// `buf` as far as `buf` reaches.
proof fn lemma_args_extend(b: Seq<u8>, buf: Seq<u8>, idx: int, count: int, positions: Seq<usize>)
    requires
        extends(b, buf),
        positions.len() < count,
        0 <= idx,
        idx + 4 <= buf.len(),
    ensures
        b.subrange(idx, idx + 4) == buf.subrange(idx, idx + 4),
        ({
            let len = from_be32(buf.subrange(idx, idx + 4)) as int;
            idx + 4 + len <= buf.len() ==> parse_args(b, idx, count, positions) == parse_args(
                b,
                idx + 4 + len,
                count,
                positions.push((idx + 3 + len) as usize),
            )
        }),
{
    assert(b.subrange(idx, idx + 4) =~= buf.subrange(idx, idx + 4)) by {
        assert forall|i: int| 0 <= i < 4 implies #[trigger] b.subrange(idx, idx + 4)[i]
            == buf.subrange(idx, idx + 4)[i] by {
            assert(b.subrange(0, buf.len() as int)[idx + i] == b[idx + i]);
        }
    }
}

/// A byte within `buf` is the same in any extension of it.
proof fn lemma_extend_index(b: Seq<u8>, buf: Seq<u8>, i: int)
    requires
        extends(b, buf),
        0 <= i < buf.len(),
    ensures
        b[i] == buf[i],
{
    assert(b.subrange(0, buf.len() as int)[i] == b[i]);
}

impl Default for Context {
    /// A context that has decoded nothing.
    fn default() -> (r: Self)
        ensures
            r@.is_fresh(),
            r@.wf(),
    {
        Context::new()
    }
}

impl Context {
    pub fn new() -> (r: Self)
        ensures
            r@.is_fresh(),
            r@.wf(),
    {
        Context { idx: 0, positions: positions_new(), stage: Stage::Init }
    }

    /// Back to the state that has decoded nothing.
    fn reset(&mut self)
        ensures
            final(self)@.is_fresh(),
    {
        self.idx = 0;
        positions_clear(&mut self.positions);
        self.stage = Stage::Init;
    }

    /// The request that the context has decoded from `buf`.
    fn finish(&mut self, buf: &[u8], command_id: CommandId, key_type: Option<KeyType>) -> (r:
        Request)
        ensures
            r@ == (RequestView {
                buf: buf@,
                command_id,
                key_type,
                positions: old(self)@.positions,
            }),
            final(self)@.is_fresh(),
            final(self)@.wf(),
    {
        let positions = positions_clone(&self.positions);
        self.reset();
        Request { buf: vstd::slice::slice_to_vec(buf), command_id, key_type, positions }
    }

    /// Decodes the first byte.
    fn stage_init(&mut self, buf: &[u8]) -> (r: Step)
        requires
            old(self)@.wf(),
            old(self)@.stage == Stage::Init,
        ensures
            step_ok(old(self)@, final(self)@, buf@, r),
    {
        if buf.len() == 0 {
            return Step::Incomplete;
        }
        let byte = buf[0];
        let command_id = match CommandId::try_from(byte & 0x7fu8) {
            Ok(c) => c,
            Err(_) => return Step::Failed(ParseError::CommandIdInvalid),
        };
        let ghost cur = self@;
        if byte & 0x80u8 != 0 {
            self.stage = Stage::KeyType { command_id };
            self.idx = 1;
            assert forall|b: Seq<u8>| #[trigger] extends(b, buf@) implies self@.resume(b)
                == cur.resume(b) by {
                lemma_extend_index(b, buf@, 0);
            }
            Step::Next
        } else {
            if command_id.is_simple() {
                assert(cur.positions =~= Seq::<usize>::empty());
                return Step::Finished(self.finish(buf, command_id, None));
            }
            self.stage = Stage::Kind { command_id, key_type: None };
            self.idx = 1;
            assert forall|b: Seq<u8>| #[trigger] extends(b, buf@) implies self@.resume(b)
                == cur.resume(b) by {
                lemma_extend_index(b, buf@, 0);
            }
            Step::Next
        }
    }

    /// Decodes the key type byte.
    fn stage_key_type(&mut self, buf: &[u8], command_id: CommandId) -> (r: Step)
        requires
            old(self)@.wf(),
            old(self)@.stage == (Stage::KeyType { command_id }),
            old(self)@.idx <= buf@.len(),
        ensures
            step_ok(old(self)@, final(self)@, buf@, r),
    {
        if buf.len() < 2 {
            return Step::Incomplete;
        }
        let key_type = match KeyType::try_from(buf[1]) {
            Ok(k) => k,
            Err(_) => return Step::Failed(ParseError::KeyTypeInvalid),
        };
        let ghost cur = self@;
        if command_id.is_simple() {
            assert(cur.positions =~= Seq::<usize>::empty());
            return Step::Finished(self.finish(buf, command_id, Some(key_type)));
        }
        self.stage = Stage::Kind { command_id, key_type: Some(key_type) };
        self.idx = 2;
        assert forall|b: Seq<u8>| #[trigger] extends(b, buf@) implies self@.resume(b) == cur.resume(
            b,
        ) by {
            lemma_extend_index(b, buf@, 1);
        }
        Step::Next
    }

    /// Decodes the argument count. A count of zero completes the request
    /// at once, with no arguments: there is no argument to wait for, and a
    /// builder writes exactly that for a request it was given no argument.
    fn stage_kind(&mut self, buf: &[u8], command_id: CommandId, key_type: Option<KeyType>) -> (r:
        Step)
        requires
            old(self)@.wf(),
            old(self)@.stage == (Stage::Kind { command_id, key_type }),
        ensures
            step_ok(old(self)@, final(self)@, buf@, r),
    {
        if self.idx >= buf.len() {
            return Step::Incomplete;
        }
        let argument_count = buf[self.idx];
        let ghost cur = self@;
        assert(cur.positions =~= Seq::<usize>::empty());
        if argument_count == 0 {
            return Step::Finished(self.finish(buf, command_id, key_type));
        }
        self.stage = Stage::ArgumentParsing { argument_count, command_id, key_type };
        self.idx = self.idx + 1;
        assert forall|b: Seq<u8>| #[trigger] extends(b, buf@) implies self@.resume(b) == cur.resume(
            b,
        ) by {
            lemma_extend_index(b, buf@, cur.idx as int);
        }
        Step::Next
    }

    /// Decodes one argument.
    fn stage_argument_parsing(
        &mut self,
        buf: &[u8],
        argument_count: u8,
        command_id: CommandId,
        key_type: Option<KeyType>,
    ) -> (r: Step)
        requires
            old(self)@.wf(),
            old(self)@.stage == (Stage::ArgumentParsing { argument_count, command_id, key_type }),
            old(self)@.idx <= buf@.len(),
        ensures
            step_ok(old(self)@, final(self)@, buf@, r),
    {
        if buf.len() - self.idx < 4 {
            return Step::Incomplete;
        }
        let arg_len = read_be32(buf, self.idx) as usize;
        if buf.len() - self.idx - 4 < arg_len {
            return Step::Incomplete;
        }
        let ghost cur = self@;
        let ghost len = arg_len as int;
        let position = self.idx + 3 + arg_len;
        positions_push(&mut self.positions, position);
        self.idx = self.idx + 4 + arg_len;
        assert forall|b: Seq<u8>| #[trigger] extends(b, buf@) implies self@.resume(b) == cur.resume(
            b,
        ) by {
            lemma_args_extend(b, buf@, cur.idx as int, argument_count as int, cur.positions);
            assert(parse_args(b, cur.idx as int, argument_count as int, cur.positions) == parse_args(
                b,
                cur.idx + 4 + len,
                argument_count as int,
                cur.positions.push((cur.idx + 3 + len) as usize),
            ));
        }
        if positions_len(&self.positions) >= argument_count as usize {
            assert(extends(buf@, buf@)) by {
                assert(buf@.subrange(0, buf@.len() as int) =~= buf@);
            }
            return Step::Finished(self.finish(buf, command_id, key_type));
        }
        Step::Next
    }

    /// Feeds the bytes received so far, from the first byte of the request
    /// on.
    ///
    /// Answers the request once `buf` holds all of it, `None` while more
    /// bytes are needed, and an error when `buf` cannot begin a request. The
    /// answer is that of decoding `buf` from where the context stands (from
    /// the start, for a new context). Answering `None` or an error does not
    /// change the answer on any buffer that begins with `buf`; answering the
    /// request makes the context new again. A request whose argument count
    /// is zero is complete once that count is read.
    pub fn feed(&mut self, buf: &[u8]) -> (r: Result<Option<Request>, ParseError>)
        requires
            old(self)@.wf(),
        ensures
            final(self)@.wf(),
            match r {
                Ok(Some(req)) => {
                    &&& old(self)@.resume(buf@) matches Parsed::Complete {
                        command_id,
                        key_type,
                        positions,
                    }
                    &&& req@ == (RequestView { buf: buf@, command_id, key_type, positions })
                    &&& final(self)@.is_fresh()
                },
                Ok(None) => {
                    &&& old(self)@.resume(buf@) is Incomplete
                    &&& forall|b: Seq<u8>| #[trigger]
                        extends(b, buf@) ==> final(self)@.resume(b) == old(self)@.resume(b)
                },
                Err(e) => {
                    &&& old(self)@.resume(buf@) == Parsed::Invalid(e)
                    &&& forall|b: Seq<u8>| #[trigger]
                        extends(b, buf@) ==> final(self)@.resume(b) == old(self)@.resume(b)
                },
            },
    {
        assert(extends(buf@, buf@)) by {
            assert(buf@.subrange(0, buf@.len() as int) =~= buf@);
        }
        loop
            invariant
                self@.wf(),
                extends(buf@, buf@),
                forall|b: Seq<u8>| #[trigger]
                    extends(b, buf@) ==> self@.resume(b) == old(self)@.resume(b),
            decreases self@.progress(),
        {
            if self.idx > buf.len() {
                assert(self@.resume(buf@) is Incomplete);
                return Ok(None);
            }
            let step = match self.stage {
                Stage::Init => self.stage_init(buf),
                Stage::KeyType { command_id } => self.stage_key_type(buf, command_id),
                Stage::Kind { command_id, key_type } => self.stage_kind(buf, command_id, key_type),
                Stage::ArgumentParsing { argument_count, command_id, key_type } => self.stage_argument_parsing(
                    buf,
                    argument_count,
                    command_id,
                    key_type,
                ),
            };
            match step {
                Step::Next => {},
                Step::Incomplete => return Ok(None),
                Step::Finished(req) => return Ok(Some(req)),
                Step::Failed(e) => return Err(e),
            }
        }
    }
}

/// The outcome of one step of decoding.
pub enum Step {
    /// The context moved on; decoding continues.
    Next,
    /// More bytes are needed.
    Incomplete,
    /// The request is complete.
    Finished(Request),
    /// The bytes cannot begin a request.
    Failed(ParseError),
}

/// One step from `old` to `new` on `buf` kept the answer on every extension
/// of `buf`, or ended decoding with that answer.
pub open spec fn step_ok(old: ContextView, new: ContextView, buf: Seq<u8>, r: Step) -> bool {
    match r {
        Step::Next => {
            &&& new.wf()
            &&& new.progress() < old.progress()
            &&& forall|b: Seq<u8>| #[trigger] extends(b, buf) ==> new.resume(b) == old.resume(b)
        },
        Step::Incomplete => {
            &&& new == old
            &&& old.resume(buf) is Incomplete
        },
        Step::Failed(e) => {
            &&& new == old
            &&& old.resume(buf) == Parsed::Invalid(e)
        },
        Step::Finished(req) => {
            &&& old.resume(buf) matches Parsed::Complete { command_id, key_type, positions }
            &&& req@ == (RequestView { buf: buf, command_id, key_type, positions })
            &&& new.is_fresh()
            &&& new.wf()
        },
    }
}

} // verus!
