//! Requests: their binary form, their incremental decoding and a builder.
//!
//! A request is laid out as follows:
//!
//! - one byte with the command's identifier; its highest bit is set when a
//!   key type follows;
//! - the key type's byte, if the highest bit was set;
//! - unless the command is simple (see [`CommandId::is_simple`]), one byte
//!   with the number of arguments, then each argument as its length in four
//!   big-endian bytes followed by its bytes.
//!
//! A request keeps, for each argument, the position of its last byte.

pub mod builder;
pub mod context;
pub mod laws;
pub mod positions;

pub use self::builder::{RequestBuilder, RequestBuilderError};
pub use self::context::{Context, ParseError};

use self::positions::{positions_get, positions_len, positions_of, Positions};
use crate::codec::{be32, from_be64, read_be64};
use crate::command::command_id::CommandId;
use crate::state::dash::{byte_map_contents, byte_map_insert, byte_map_new, byte_set_contents, byte_set_insert, byte_set_new};
use crate::state::value::{copy_bytes, list_view};
use crate::state::KeyType;
use dashmap::{DashMap, DashSet};
use vstd::prelude::*;
use vstd::utf8::{decode_utf8, valid_utf8};

verus! {

/// The first byte of a request for `command_id`, with the flag that says
/// whether a key type follows.
pub open spec fn command_byte(command_id: CommandId, key_type: Option<KeyType>) -> u8 {
    if key_type is Some {
        (command_id.spec_id() + 128) as u8
    } else {
        command_id.spec_id()
    }
}

/// The bytes of a request before its argument count.
pub open spec fn header(command_id: CommandId, key_type: Option<KeyType>) -> Seq<u8> {
    match key_type {
        Some(k) => seq![command_byte(command_id, key_type), k.spec_code()],
        None => seq![command_byte(command_id, key_type)],
    }
}

/// Arguments, each as its length in four bytes followed by its bytes.
pub open spec fn encode_args(args: Seq<Seq<u8>>) -> Seq<u8>
    decreases args.len(),
{
    if args.len() == 0 {
        Seq::empty()
    } else {
        encode_args(args.drop_last()) + be32(args.last().len() as u32) + args.last()
    }
}

/// The complete encoding of a request with the given arguments.
pub open spec fn encode_request(
    command_id: CommandId,
    key_type: Option<KeyType>,
    args: Seq<Seq<u8>>,
) -> Seq<u8> {
    if command_id.spec_is_simple() {
        header(command_id, key_type)
    } else {
        header(command_id, key_type) + seq![args.len() as u8] + encode_args(args)
    }
}

/// What a request is: its bytes, its command, its key type and the position
/// of the last byte of each argument.
pub struct RequestView {
    pub buf: Seq<u8>,
    pub command_id: CommandId,
    pub key_type: Option<KeyType>,
    pub positions: Seq<usize>,
}

impl RequestView {
    /// The number of bytes before the first argument's length.
    pub open spec fn base(self) -> int {
        if self.key_type is Some {
            1
        } else {
            0
        }
    }

    /// Where the bytes of argument `idx` start.
    pub open spec fn arg_start(self, idx: int) -> int {
        if idx == 0 {
            6 + self.base()
        } else {
            self.positions[idx - 1] + 5
        }
    }

    /// Argument `idx`: the bytes from its start up to its position, if the
    /// request has that many arguments and those bytes are in the buffer.
    pub open spec fn arg(self, idx: int) -> Option<Seq<u8>> {
        if 0 <= idx < self.positions.len() {
            let start = self.arg_start(idx);
            let end = self.positions[idx] + 1;
            if start <= end && end <= self.buf.len() {
                Some(self.buf.subrange(start, end))
            } else {
                None
            }
        } else {
            None
        }
    }

    /// The key of the request: its first argument, for a command with a key.
    pub open spec fn key(self) -> Option<Seq<u8>> {
        if self.command_id.spec_has_key() {
            self.arg(0)
        } else {
            None
        }
    }

    /// The arguments from `start` on, up to the first one that cannot be
    /// read.
    pub open spec fn arg_list(self, start: int) -> Seq<Seq<u8>>
        decreases self.positions.len() - start,
    {
        if start < 0 || start >= self.positions.len() {
            Seq::empty()
        } else {
            match self.arg(start) {
                Some(a) => seq![a] + self.arg_list(start + 1),
                None => Seq::empty(),
            }
        }
    }

    /// The map of the argument pairs from `i` on added to `m`: each pair is
    /// a key followed by its value, up to the first pair that is incomplete
    /// or cannot be read.
    pub open spec fn pairs_map(self, i: int, m: Map<Seq<u8>, Seq<u8>>) -> Map<Seq<u8>, Seq<u8>>
        decreases self.positions.len() - i,
    {
        if i < 0 || i + 1 >= self.positions.len() {
            m
        } else {
            match (self.arg(i), self.arg(i + 1)) {
                (Some(k), Some(v)) => self.pairs_map(i + 2, m.insert(k, v)),
                _ => m,
            }
        }
    }

    /// The arguments from `start` on, if the request has any arguments.
    pub open spec fn args_from(self, start: int) -> Option<Seq<Option<Seq<u8>>>> {
        if self.positions.len() == 0 {
            None
        } else if start >= self.positions.len() {
            Some(Seq::empty())
        } else {
            Some(Seq::new((self.positions.len() - start) as nat, |i: int| self.arg(start + i)))
        }
    }
}

/// A decoded or built request.
#[derive(Debug)]
pub struct Request {
    buf: Vec<u8>,
    command_id: CommandId,
    key_type: Option<KeyType>,
    positions: Positions,
}

impl View for Request {
    type V = RequestView;

    closed spec fn view(&self) -> RequestView {
        RequestView {
            buf: self.buf@,
            command_id: self.command_id,
            key_type: self.key_type,
            positions: positions_of(self.positions),
        }
    }
}

/// `str::from_utf8`: the string that the bytes hold, if they are valid
/// UTF-8.
#[verifier::external_body]
pub(crate) fn str_from_utf8(bytes: &[u8]) -> (r: Option<&str>)
    ensures
        match r {
            Some(s) => valid_utf8(bytes@) && s@ == decode_utf8(bytes@),
            None => !valid_utf8(bytes@),
        },
{
    core::str::from_utf8(bytes).ok()
}

/// A conversion of an argument's bytes into a typed value.
pub trait Argument: Sized {
    /// The value that the bytes stand for, if any.
    spec fn spec_convert(bytes: Seq<u8>) -> Option<Self>;

    fn convert(bytes: &[u8]) -> (r: Option<Self>)
        ensures
            r == Self::spec_convert(bytes@),
    ;
}

impl Argument for bool {
    /// A boolean is its first byte, true when that byte is not zero.
    open spec fn spec_convert(bytes: Seq<u8>) -> Option<bool> {
        if bytes.len() == 0 {
            None
        } else {
            Some(bytes[0] > 0)
        }
    }

    fn convert(bytes: &[u8]) -> (r: Option<bool>) {
        if bytes.len() == 0 {
            None
        } else {
            Some(bytes[0] > 0)
        }
    }
}

impl Argument for i64 {
    /// An integer is its first eight bytes, big-endian two's complement.
    open spec fn spec_convert(bytes: Seq<u8>) -> Option<i64> {
        if bytes.len() < 8 {
            None
        } else {
            Some(from_be64(bytes.take(8)) as i64)
        }
    }

    fn convert(bytes: &[u8]) -> (r: Option<i64>) {
        if bytes.len() < 8 {
            None
        } else {
            let v = read_be64(bytes, 0);
            assert(bytes@.subrange(0, 8) =~= bytes@.take(8));
            Some(v as i64)
        }
    }
}

/// A conversion of the arguments of a request into one typed value.
pub trait MultiArgument: Sized {
    /// Whether `v` is what the arguments of `req` from `start` on convert
    /// to.
    spec fn converted(req: RequestView, start: int, v: Self) -> bool;

    fn convert(args: Arguments<'_>) -> (r: Option<Self>)
        ensures
            r matches Some(v) && Self::converted(args.spec_request(), args.spec_idx() as int, v),
    ;
}

impl MultiArgument for DashMap<Vec<u8>, Vec<u8>> {
    /// A map holds the argument pairs: a key, then its value.
    open spec fn converted(req: RequestView, start: int, v: Self) -> bool {
        byte_map_contents(v) == req.pairs_map(start, Map::empty())
    }

    fn convert(args: Arguments<'_>) -> (r: Option<Self>) {
        let req = args.request;
        let count = req.arg_count();
        let mut map = byte_map_new();
        let mut i = args.idx;
        let ghost start = args.idx as int;
        while i < count && count - i >= 2
            invariant
                count == req@.positions.len(),
                start <= i,
                start == args.spec_idx() as int,
                req@ == args.spec_request(),
                req@.pairs_map(start, Map::empty()) == req@.pairs_map(i as int, byte_map_contents(map)),
            decreases count - i,
        {
            let k = req.arg(i);
            let v = req.arg(i + 1);
            match (k, v) {
                (Some(k), Some(v)) => {
                    byte_map_insert(&mut map, copy_bytes(k), copy_bytes(v));
                },
                _ => {
                    assert(req@.pairs_map(i as int, byte_map_contents(map)) == byte_map_contents(map));
                    return Some(map);
                },
            }
            i = i + 2;
        }
        Some(map)
    }
}

impl MultiArgument for DashSet<Vec<u8>> {
    /// A set holds the arguments.
    open spec fn converted(req: RequestView, start: int, v: Self) -> bool {
        byte_set_contents(v) == req.arg_list(start).to_set()
    }

    fn convert(args: Arguments<'_>) -> (r: Option<Self>) {
        let items = args.request.arg_vec(args.idx);
        let ghost its = list_view(items@);
        let mut set = byte_set_new();
        let mut i: usize = 0;
        while i < items.len()
            invariant
                i <= items@.len(),
                its == list_view(items@),
                byte_set_contents(set) == its.take(i as int).to_set(),
            decreases items@.len() - i,
        {
            byte_set_insert(&mut set, copy_bytes(items[i].as_slice()));
            assert(its.take(i + 1).to_set() =~= its.take(i as int).to_set().insert(its[i as int])) by {
                assert forall|a: Seq<u8>| #[trigger] its.take(i + 1).contains(a) implies its.take(
                    i as int,
                ).contains(a) || a == its[i as int] by {
                    let j = choose|j: int| 0 <= j < i + 1 && #[trigger] its.take(i + 1)[j] == a;
                    if j < i {
                        assert(its.take(i as int)[j] == a);
                    }
                }
                assert(its.take(i + 1)[i as int] == its[i as int]);
                assert forall|a: Seq<u8>| #[trigger] its.take(i as int).contains(a) implies its.take(
                    i + 1,
                ).contains(a) by {
                    let j = choose|j: int| 0 <= j < i && #[trigger] its.take(i as int)[j] == a;
                    assert(its.take(i + 1)[j] == a);
                }
            }
            i = i + 1;
        }
        assert(its.take(items@.len() as int) =~= its);
        Some(set)
    }
}

/// The arguments of a request from some index on.
#[derive(Debug)]
pub struct Arguments<'a> {
    idx: usize,
    to: usize,
    request: &'a Request,
}

impl<'a> Arguments<'a> {
    pub closed spec fn spec_idx(&self) -> usize {
        self.idx
    }

    pub closed spec fn spec_to(&self) -> usize {
        self.to
    }

    pub closed spec fn spec_request(&self) -> RequestView {
        self.request@
    }

    /// The index past the last argument to take (the number of the
    /// request's arguments, unless an end was given).
    pub fn len(&self) -> (r: usize)
        ensures
            r == self.spec_to(),
    {
        self.to
    }

    /// The next argument: `None` once all are taken.
    pub fn next(&mut self) -> (r: Option<&'a [u8]>)
        requires
            old(self).spec_idx() == old(self).spec_to() || old(self).spec_idx() < usize::MAX,
        ensures
            final(self).spec_to() == old(self).spec_to(),
            final(self).spec_request() == old(self).spec_request(),
            if old(self).spec_idx() == old(self).spec_to() {
                r is None && final(self).spec_idx() == old(self).spec_idx()
            } else {
                final(self).spec_idx() == old(self).spec_idx() + 1 && match r {
                    Some(s) => old(self).spec_request().arg(old(self).spec_idx() as int) == Some(s@),
                    None => old(self).spec_request().arg(old(self).spec_idx() as int) is None,
                }
            },
    {
        if self.idx == self.to {
            return None;
        }
        let idx = self.idx;
        self.idx = self.idx + 1;
        self.request.arg(idx)
    }
}

impl Request {
    /// The command of the request.
    pub fn command_id(&self) -> (r: CommandId)
        ensures
            r == self@.command_id,
    {
        self.command_id
    }

    /// The arguments from `start` up to `end` (not included), or to the last
    /// argument when `end` is `None`, if the request has any arguments.
    pub fn args(&self, start: usize, end: Option<usize>) -> (r: Option<Arguments<'_>>)
        ensures
            match r {
                Some(a) => self@.positions.len() > 0 && a.spec_idx() == start && a.spec_to()
                    == match end {
                    Some(e) => e,
                    None => self@.positions.len() as usize,
                } && a.spec_request() == self@,
                None => self@.positions.len() == 0,
            },
    {
        let count = self.arg_count();
        if count == 0 {
            return None;
        }
        let to = match end {
            Some(e) => e,
            None => count,
        };
        Some(Arguments { idx: start, to, request: self })
    }

    /// Argument `idx`, if there is one.
    pub fn arg(&self, idx: usize) -> (r: Option<&[u8]>)
        ensures
            match r {
                Some(s) => self@.arg(idx as int) == Some(s@),
                None => self@.arg(idx as int) is None,
            },
    {
        let position = match positions_get(&self.positions, idx) {
            Some(p) => p,
            None => return None,
        };
        if position >= self.buf.len() {
            return None;
        }
        let start: usize;
        if idx == 0 {
            let base: usize = if self.key_type.is_some() { 1 } else { 0 };
            if position < 5 + base {
                return None;
            }
            start = 6 + base;
        } else {
            let previous = match positions_get(&self.positions, idx - 1) {
                Some(p) => p,
                None => return None,
            };
            if position < 4 || previous > position - 4 {
                return None;
            }
            start = previous + 5;
        }
        Some(vstd::slice::slice_subrange(self.buf.as_slice(), start, position + 1))
    }

    /// Copies of the arguments from `start` on, up to the first one that
    /// cannot be read.
    pub fn arg_vec(&self, start: usize) -> (r: Vec<Vec<u8>>)
        ensures
            list_view(r@) == self@.arg_list(start as int),
    {
        let count = self.arg_count();
        let mut r: Vec<Vec<u8>> = Vec::new();
        let mut i = start;
        while i < count
            invariant
                count == self@.positions.len(),
                start <= i,
                list_view(r@) + self@.arg_list(i as int) == self@.arg_list(start as int),
            decreases count - i,
        {
            match self.arg(i) {
                Some(a) => {
                    let ghost before = list_view(r@);
                    r.push(copy_bytes(a));
                    assert(list_view(r@) =~= before.push(a@));
                    assert(self@.arg_list(i as int) == seq![a@] + self@.arg_list(i + 1));
                    assert(list_view(r@) + self@.arg_list(i + 1) =~= before + self@.arg_list(
                        i as int,
                    ));
                },
                None => {
                    assert(self@.arg_list(i as int) =~= Seq::<Seq<u8>>::empty());
                    assert(list_view(r@) + self@.arg_list(i as int) =~= list_view(r@));
                    return r;
                },
            }
            i = i + 1;
        }
        assert(list_view(r@) + self@.arg_list(i as int) =~= list_view(r@));
        r
    }

    /// The position of the last byte of argument `idx`, if there is one.
    pub fn position(&self, idx: usize) -> (r: Option<usize>)
        ensures
            r == if idx < self@.positions.len() {
                Some(self@.positions[idx as int])
            } else {
                None::<usize>
            },
    {
        positions_get(&self.positions, idx)
    }

    /// The number of arguments.
    pub fn arg_count(&self) -> (r: usize)
        ensures
            r == self@.positions.len(),
    {
        positions_len(&self.positions)
    }

    /// The arguments after the first one converted to one typed value, if
    /// the request has any arguments.
    pub fn typed_args<T: MultiArgument>(&self) -> (r: Option<T>)
        ensures
            match r {
                Some(v) => self@.positions.len() > 0 && T::converted(self@, 1, v),
                None => self@.positions.len() == 0,
            },
    {
        match self.args(1, None) {
            Some(args) => T::convert(args),
            None => None,
        }
    }

    /// Argument `idx` converted to a typed value.
    pub fn typed_arg<T: Argument>(&self, idx: usize) -> (r: Option<T>)
        ensures
            r == match self@.arg(idx as int) {
                Some(a) => T::spec_convert(a),
                None => None,
            },
    {
        match self.arg(idx) {
            Some(a) => T::convert(a),
            None => None,
        }
    }

    /// Argument `idx` read as a string, if its bytes are valid UTF-8.
    pub fn typed_arg_str(&self, idx: usize) -> (r: Option<&str>)
        ensures
            match r {
                Some(s) => self@.arg(idx as int) matches Some(a) && valid_utf8(a) && s@ == decode_utf8(a),
                None => self@.arg(idx as int) matches Some(a) ==> !valid_utf8(a),
            },
    {
        match self.arg(idx) {
            Some(a) => str_from_utf8(a),
            None => None,
        }
    }

    /// Argument `idx` read as a float, given by its bit pattern: the first
    /// eight bytes, big-endian.
    pub fn typed_arg_float_bits(&self, idx: usize) -> (r: Option<u64>)
        ensures
            r == match self@.arg(idx as int) {
                Some(a) => if a.len() < 8 {
                    None
                } else {
                    Some(from_be64(a.take(8)))
                },
                None => None,
            },
    {
        match self.arg(idx) {
            Some(a) => {
                if a.len() < 8 {
                    None
                } else {
                    let v = read_be64(a, 0);
                    assert(a@.subrange(0, 8) =~= a@.take(8));
                    Some(v)
                }
            },
            None => None,
        }
    }

    /// The key of the request: its first argument, for a command with a key.
    pub fn key(&self) -> (r: Option<&[u8]>)
        ensures
            match r {
                Some(s) => self@.key() == Some(s@),
                None => self@.key() is None,
            },
    {
        if !self.command_id.has_key() {
            return None;
        }
        self.arg(0)
    }

    /// The requested type of key to work with, if any.
    ///
    /// Some commands only work with one type of key, where this isn't taken
    /// into account. Other commands, such as append, can work with bytes,
    /// lists and strings in their own ways and look at the key type to know
    /// which to work with.
    pub fn key_type(&self) -> (r: Option<KeyType>)
        ensures
            r == self@.key_type,
    {
        self.key_type
    }

    /// The request's bytes.
    pub fn into_bytes(self) -> (r: Vec<u8>)
        ensures
            r@ == self@.buf,
    {
        self.buf
    }

    /// The request's bytes.
    pub fn as_bytes(&self) -> (r: &[u8])
        ensures
            r@ == self@.buf,
    {
        self.buf.as_slice()
    }
}

} // verus!
