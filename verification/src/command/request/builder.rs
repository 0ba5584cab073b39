//! Building requests.

use super::positions::{positions_clone, positions_get, positions_len, positions_new, positions_of, positions_push, Positions};
use super::{encode_args, encode_request, header, Request, RequestView};
use crate::codec::{be32, be64, push_be32};
use crate::command::command_id::CommandId;
use crate::command::response::payload::{append_bytes, entries_view, is_map_listing, is_set_listing, items_view, map_listing, set_listing};
use crate::state::dash::{byte_map_len, byte_set_len};
use crate::state::value::{copy_bytes, list_view, Value, ValueView};
use crate::state::KeyType;
use vstd::prelude::*;
use vstd::utf8::encode_utf8;

verus! {

/// Why an argument could not be added to a request.
#[derive(Clone, Copy, Debug, PartialEq, Eq, Structural)]
pub enum RequestBuilderError {
    ArgumentEmpty,
    TooManyArguments,
    ValueEmpty,
}

impl RequestBuilderError {
    pub open spec fn spec_message(&self) -> &'static str {
        match self {
            RequestBuilderError::ArgumentEmpty => "the provided argument is empty",
            RequestBuilderError::TooManyArguments => "too many arguments have been given to the builder",
            RequestBuilderError::ValueEmpty => "the provided value variant is empty (0 length)",
        }
    }

    /// A human-readable description of the error.
    pub fn message(&self) -> (r: &'static str)
        ensures
            r@ == self.spec_message()@,
    {
        match self {
            RequestBuilderError::ArgumentEmpty => "the provided argument is empty",
            RequestBuilderError::TooManyArguments => "too many arguments have been given to the builder",
            RequestBuilderError::ValueEmpty => "the provided value variant is empty (0 length)",
        }
    }
}

/// The position of the last byte of each argument, as a builder places
/// them: the first one `base + 5 + len` (after the command byte, the key
/// type byte if any, the argument count and the length field), each later
/// one four length bytes and its own length past the one before.
pub open spec fn arg_positions(base: int, args: Seq<Seq<u8>>) -> Seq<usize>
    decreases args.len(),
{
    if args.len() == 0 {
        Seq::empty()
    } else {
        let prev = arg_positions(base, args.drop_last());
        let p = if prev.len() == 0 {
            base + 5 + args.last().len()
        } else {
            prev.last() + 4 + args.last().len()
        };
        prev.push(p as usize)
    }
}

/// What a builder is: the request so far and the arguments given to it.
#[verifier::ext_equal]
pub struct BuilderView {
    pub argument_count: u8,
    pub buf: Seq<u8>,
    pub command_id: CommandId,
    pub key_type: Option<KeyType>,
    pub positions: Seq<usize>,
    pub args: Seq<Seq<u8>>,
}

impl BuilderView {
    pub open spec fn base(self) -> int {
        if self.key_type is Some {
            1
        } else {
            0
        }
    }

    /// The builder after adding `arg`, or the reason it cannot be added.
    pub open spec fn push(self, arg: Seq<u8>) -> Result<BuilderView, RequestBuilderError> {
        if self.argument_count == 255 {
            Err(RequestBuilderError::TooManyArguments)
        } else {
            let count = (self.argument_count + 1) as u8;
            let p = if self.positions.len() == 0 {
                self.base() + 5 + arg.len()
            } else {
                self.positions.last() + 4 + arg.len()
            };
            Ok(
                BuilderView {
                    argument_count: count,
                    buf: (self.buf + be32(arg.len() as u32) + arg).update(1 + self.base(), count),
                    positions: self.positions.push(p as usize),
                    args: self.args.push(arg),
                    ..self
                },
            )
        }
    }

    /// The builder after adding each of `items` in turn, stopping at the
    /// first that cannot be added (or, when `nonempty`, that is empty).
    pub open spec fn push_all(self, items: Seq<Seq<u8>>, nonempty: bool) -> (
        BuilderView,
        Result<(), RequestBuilderError>,
    )
        decreases items.len(),
    {
        if items.len() == 0 {
            (self, Ok(()))
        } else {
            let (prev, res) = self.push_all(items.drop_last(), nonempty);
            if res is Err {
                (prev, res)
            } else if nonempty && items.last().len() == 0 {
                (prev, Err(RequestBuilderError::ValueEmpty))
            } else {
                match prev.push(items.last()) {
                    Ok(next) => (next, Ok(())),
                    Err(e) => (prev, Err(e)),
                }
            }
        }
    }

    /// The builder after adding `arg` and the outcome, unchanged on an error.
    pub open spec fn push_one(self, arg: Seq<u8>) -> (BuilderView, Result<(), RequestBuilderError>) {
        match self.push(arg) {
            Ok(next) => (next, Ok(())),
            Err(e) => (self, Err(e)),
        }
    }

    /// Adding the given number of arguments would take the count past 255.
    pub open spec fn would_overfill(self, amount: u8) -> bool {
        self.argument_count + amount > 255
    }

    /// The bytes and positions are those of the arguments given so far.
    pub open spec fn wf(self) -> bool {
        &&& self.argument_count == self.positions.len()
        &&& self.args.len() == self.positions.len()
        &&& self.positions == arg_positions(self.base(), self.args)
        &&& self.buf.len() >= header(self.command_id, self.key_type).len()
        &&& forall|i: int| 0 <= i < self.positions.len() ==> self.positions[i] <= self.buf.len()
        &&& !self.command_id.spec_is_simple() ==> self.buf == encode_request(
            self.command_id,
            self.key_type,
            self.args,
        )
        &&& self.command_id.spec_is_simple() ==> self.buf.subrange(
            0,
            header(self.command_id, self.key_type).len() as int,
        ) == header(self.command_id, self.key_type)
    }
}

/// The pairs of a map listing, laid out key, value, key, value.
pub open spec fn flatten_entries(entries: Seq<(Seq<u8>, Seq<u8>)>) -> Seq<Seq<u8>>
    decreases entries.len(),
{
    if entries.len() == 0 {
        Seq::empty()
    } else {
        flatten_entries(entries.drop_last()).push(entries.last().0).push(entries.last().1)
    }
}

/// Builder to construct valid requests.
///
/// The builder makes sure that empty arguments are not given and that not
/// too many arguments are given.
pub struct RequestBuilder {
    argument_count: u8,
    buf: Vec<u8>,
    cmd_id: CommandId,
    key_type: Option<KeyType>,
    positions: Positions,
    args: Ghost<Seq<Seq<u8>>>,
}

impl View for RequestBuilder {
    type V = BuilderView;

    closed spec fn view(&self) -> BuilderView {
        BuilderView {
            argument_count: self.argument_count,
            buf: self.buf@,
            command_id: self.cmd_id,
            key_type: self.key_type,
            positions: positions_of(self.positions),
            args: self.args@,
        }
    }
}

impl Clone for RequestBuilder {
    /// A builder with the same arguments so far.
    fn clone(&self) -> (r: Self)
        ensures
            r@ == self@,
    {
        RequestBuilder {
            argument_count: self.argument_count,
            buf: copy_bytes(self.buf.as_slice()),
            cmd_id: self.cmd_id,
            key_type: self.key_type,
            positions: positions_clone(&self.positions),
            args: Ghost(self.args@),
        }
    }
}

/// How many of a request's arguments a builder takes over: all of them, up
/// to the 255 that a request can hold.
pub open spec fn taken_over(n: int) -> int {
    if n <= 255 {
        n
    } else {
        255
    }
}

impl RequestBuilder {
    /// A builder for a request of the command, with no key type.
    pub fn new(cmd_id: CommandId) -> (r: Self)
        ensures
            r@.wf(),
            r@.command_id == cmd_id,
            r@.key_type is None,
            r@.args.len() == 0,
            r@.buf == encode_request(cmd_id, None, Seq::empty()),
    {
        Self::new_with_key_type(cmd_id, None)
    }

    /// A builder for a request of the command with the given key type.
    pub fn new_with_key_type(cmd_id: CommandId, key_type: Option<KeyType>) -> (r: Self)
        ensures
            r@.wf(),
            r@.command_id == cmd_id,
            r@.key_type == key_type,
            r@.args.len() == 0,
            r@.buf == encode_request(cmd_id, key_type, Seq::empty()),
    {
        let mut buf: Vec<u8> = Vec::new();
        let mut byte = cmd_id.as_u8();
        if key_type.is_some() {
            assert(byte < 128);
            assert(byte | 0x80u8 == (byte + 128) as u8) by (bit_vector)
                requires
                    byte < 128,
            ;
            byte = byte | 0x80u8;
        }
        buf.push(byte);
        match key_type {
            Some(k) => buf.push(k.as_u8()),
            None => {},
        }
        if !cmd_id.is_simple() {
            buf.push(0);
        }
        let r = RequestBuilder {
            argument_count: 0,
            buf,
            cmd_id,
            key_type,
            positions: positions_new(),
            args: Ghost(Seq::empty()),
        };
        assert(encode_args(Seq::<Seq<u8>>::empty()) =~= Seq::<u8>::empty());
        assert(r@.buf =~= encode_request(cmd_id, key_type, Seq::empty()));
        assert(r@.buf.subrange(0, header(cmd_id, key_type).len() as int) =~= header(
            cmd_id,
            key_type,
        ));
        r
    }

    /// A builder for the request's command and key type that holds the
    /// request's arguments, to which more can be added.
    pub fn from_request(request: &Request) -> (r: Self)
        ensures
            r@.wf(),
            r@.command_id == request@.command_id,
            r@.key_type == request@.key_type,
            r@.args == request@.arg_list(0).take(taken_over(request@.arg_list(0).len() as int)),
    {
        let mut builder = Self::new_with_key_type(request.command_id(), request.key_type());
        let args = request.arg_vec(0);
        let ghost all = list_view(args@);
        let mut i: usize = 0;
        while i < args.len() && i < 255
            invariant
                builder@.wf(),
                builder@.command_id == request@.command_id,
                builder@.key_type == request@.key_type,
                all == list_view(args@),
                all == request@.arg_list(0),
                i <= args@.len(),
                i <= 255,
                builder@.args == all.take(i as int),
            decreases args@.len() - i,
        {
            match builder.push_argument(args[i].as_slice()) {
                Ok(()) => {},
                Err(_) => vstd::pervasive::unreached(),
            }
            assert(all.take(i as int).push(all[i as int]) =~= all.take(i + 1));
            i = i + 1;
        }
        builder
    }

    /// Consumes the builder and returns the built request.
    pub fn into_request(self) -> (r: Request)
        ensures
            r@ == (RequestView {
                buf: self@.buf,
                command_id: self@.command_id,
                key_type: self@.key_type,
                positions: self@.positions,
            }),
    {
        Request {
            buf: self.buf,
            command_id: self.cmd_id,
            key_type: self.key_type,
            positions: self.positions,
        }
    }

    /// The command of the request.
    pub fn command_id_ref(&self) -> (r: &CommandId)
        ensures
            *r == self@.command_id,
    {
        &self.cmd_id
    }

    /// The key type of the request, if any.
    pub fn key_type_ref(&self) -> (r: Option<&KeyType>)
        ensures
            match r {
                Some(k) => self@.key_type == Some(*k),
                None => self@.key_type is None,
            },
    {
        match &self.key_type {
            Some(k) => Some(k),
            None => None,
        }
    }

    /// Whether adding `amount` arguments would take the count past 255.
    fn arguments_would_overfill(&self, amount: u8) -> (r: bool)
        ensures
            r == self@.would_overfill(amount),
    {
        self.argument_count.checked_add(amount).is_none()
    }

    /// Adds an argument.
    ///
    /// # Errors
    ///
    /// Returns [`RequestBuilderError::TooManyArguments`] if the list of
    /// arguments is already full (it holds 255).
    fn push_argument(&mut self, argument: &[u8]) -> (r: Result<(), RequestBuilderError>)
        requires
            old(self)@.wf(),
        ensures
            final(self)@.wf(),
            match old(self)@.push(argument@) {
                Ok(next) => r == Ok::<(), RequestBuilderError>(()) && final(self)@ == next,
                Err(e) => r == Err::<(), RequestBuilderError>(e) && final(self)@ == old(self)@,
            },
    {
        if self.argument_count == 255 {
            return Err(RequestBuilderError::TooManyArguments);
        }
        let ghost old_view = self@;
        let argument_len = argument.len();
        push_be32(&mut self.buf, argument_len as u32);
        append_bytes(&mut self.buf, argument);
        let total = self.buf.len();
        assert(total == old_view.buf.len() + 4 + argument@.len());
        self.argument_count = self.argument_count + 1;
        let base: usize = if self.key_type.is_some() { 1 } else { 0 };
        self.buf.set(1 + base, self.argument_count);
        let count = positions_len(&self.positions);
        let position = if count == 0 {
            base + 1 + 4 + argument_len
        } else {
            match positions_get(&self.positions, count - 1) {
                Some(last) => last + 4 + argument_len,
                None => base + 1 + 4 + argument_len,
            }
        };
        positions_push(&mut self.positions, position);
        self.args = Ghost(self.args@.push(argument@));
        proof {
            let next = old_view.push(argument@).unwrap();
            assert(self@.buf =~= next.buf);
            assert(self@ == next);
            assert(self@.args.drop_last() =~= old_view.args);
            let h = header(self@.command_id, self@.key_type);
            assert(self@.buf.subrange(0, h.len() as int) =~= old_view.buf.subrange(
                0,
                h.len() as int,
            )) by {
                if !self@.command_id.spec_is_simple() {
                    assert(h.len() == 1 + self@.base());
                }
            }
            if !self@.command_id.spec_is_simple() {
                assert(self@.args.drop_last() =~= old_view.args);
                assert(encode_args(self@.args) =~= encode_args(old_view.args) + be32(
                    argument@.len() as u32,
                ) + argument@);
                assert(self@.buf =~= encode_request(
                    self@.command_id,
                    self@.key_type,
                    self@.args,
                ));
            }
        }
        Ok(())
    }

    /// Adds an argument holding the given bytes.
    ///
    /// # Errors
    ///
    /// Returns [`RequestBuilderError::ArgumentEmpty`] if the bytes are
    /// empty, and [`RequestBuilderError::TooManyArguments`] if the argument
    /// would not fit in the list of arguments.
    pub fn bytes(&mut self, bytes: Vec<u8>) -> (r: Result<(), RequestBuilderError>)
        requires
            old(self)@.wf(),
        ensures
            final(self)@.wf(),
            bytes@.len() == 0 ==> r == Err::<(), RequestBuilderError>(
                RequestBuilderError::ArgumentEmpty,
            ) && final(self)@ == old(self)@,
            bytes@.len() > 0 ==> match old(self)@.push(bytes@) {
                Ok(next) => r == Ok::<(), RequestBuilderError>(()) && final(self)@ == next,
                Err(e) => r == Err::<(), RequestBuilderError>(e) && final(self)@ == old(self)@,
            },
    {
        if bytes.len() == 0 {
            return Err(RequestBuilderError::ArgumentEmpty);
        }
        self.push_argument(bytes.as_slice())
    }

    /// Adds the arguments that stand for a value: a boolean as one byte, a
    /// float or an integer as its eight big-endian bytes, bytes and strings
    /// as they are, each item of a list or set and each key and value of a
    /// map as an argument of its own.
    ///
    /// # Errors
    ///
    /// Returns [`RequestBuilderError::TooManyArguments`] if the arguments
    /// would not fit in the list of arguments, and
    /// [`RequestBuilderError::ValueEmpty`] if the value's bytes, list, list
    /// item, map, set or string is empty. Arguments added before an error stay.
    pub fn value(&mut self, value: Value) -> (r: Result<(), RequestBuilderError>)
        requires
            old(self)@.wf(),
        ensures
            final(self)@.wf(),
            match value@ {
                ValueView::Boolean(b) => (final(self)@, r) == old(self)@.push_one(
                    seq![if b { 1u8 } else { 0u8 }],
                ),
                ValueView::Bytes(v) => (final(self)@, r) == if v.len() == 0 {
                    (old(self)@, Err(RequestBuilderError::ValueEmpty))
                } else {
                    old(self)@.push_one(v)
                },
                ValueView::Float(bits) => (final(self)@, r) == old(self)@.push_one(be64(bits)),
                ValueView::Integer(i) => (final(self)@, r) == old(self)@.push_one(be64(i as u64)),
                ValueView::List(items) => (final(self)@, r) == if old(self)@.would_overfill(
                    items.len() as u8,
                ) {
                    (old(self)@, Err(RequestBuilderError::TooManyArguments))
                } else if items.len() == 0 {
                    (old(self)@, Err(RequestBuilderError::ValueEmpty))
                } else {
                    old(self)@.push_all(items, true)
                },
                ValueView::ByteMap(m) => if old(self)@.would_overfill(m.len() as u8) {
                    final(self)@ == old(self)@ && r == Err::<(), RequestBuilderError>(
                        RequestBuilderError::TooManyArguments,
                    )
                } else if m.len() == 0 {
                    final(self)@ == old(self)@ && r == Err::<(), RequestBuilderError>(
                        RequestBuilderError::ValueEmpty,
                    )
                } else {
                    exists|es: Seq<(Seq<u8>, Seq<u8>)>|
                        is_map_listing(es, m) && (final(self)@, r) == old(self)@.push_all(
                            flatten_entries(es),
                            false,
                        )
                },
                ValueView::ByteSet(set) => if old(self)@.would_overfill(set.len() as u8) {
                    final(self)@ == old(self)@ && r == Err::<(), RequestBuilderError>(
                        RequestBuilderError::TooManyArguments,
                    )
                } else if set.len() == 0 {
                    final(self)@ == old(self)@ && r == Err::<(), RequestBuilderError>(
                        RequestBuilderError::ValueEmpty,
                    )
                } else {
                    exists|its: Seq<Seq<u8>>|
                        is_set_listing(its, set) && (final(self)@, r) == old(self)@.push_all(
                            its,
                            false,
                        )
                },
                ValueView::String(text) => (final(self)@, r) == if text.len() == 0 {
                    (old(self)@, Err(RequestBuilderError::ValueEmpty))
                } else {
                    old(self)@.push_one(encode_utf8(text))
                },
            },
    {
        match value {
            Value::Boolean(b) => {
                let mut byte: Vec<u8> = Vec::new();
                byte.push(if b { 1u8 } else { 0u8 });
                assert(byte@ =~= seq![if b { 1u8 } else { 0u8 }]);
                self.push_argument(byte.as_slice())
            },
            Value::Bytes(bytes) => {
                if bytes.len() == 0 {
                    return Err(RequestBuilderError::ValueEmpty);
                }
                self.push_argument(bytes.as_slice())
            },
            Value::Float(bits) => {
                let mut arg: Vec<u8> = Vec::new();
                crate::codec::push_be64(&mut arg, bits);
                assert(arg@ =~= be64(bits));
                self.push_argument(arg.as_slice())
            },
            Value::Integer(number) => {
                let mut arg: Vec<u8> = Vec::new();
                crate::codec::push_be64(&mut arg, #[verifier::truncate] (number as u64));
                assert(arg@ =~= be64(#[verifier::truncate] (number as u64)));
                self.push_argument(arg.as_slice())
            },
            Value::List(list) => {
                if self.arguments_would_overfill(list.len() as u8) {
                    return Err(RequestBuilderError::TooManyArguments);
                }
                if list.len() == 0 {
                    return Err(RequestBuilderError::ValueEmpty);
                }
                assert(items_view(list@) =~= list_view(list@));
                self.push_all(list.as_slice(), true)
            },
            Value::ByteMap(map) => {
                let len = byte_map_len(&map);
                if self.arguments_would_overfill(len as u8) {
                    return Err(RequestBuilderError::TooManyArguments);
                }
                if len == 0 {
                    return Err(RequestBuilderError::ValueEmpty);
                }
                let entries = map_listing(&map);
                let items = flatten_pairs(entries.as_slice());
                self.push_all(items.as_slice(), false)
            },
            Value::ByteSet(set) => {
                let len = byte_set_len(&set);
                if self.arguments_would_overfill(len as u8) {
                    return Err(RequestBuilderError::TooManyArguments);
                }
                if len == 0 {
                    return Err(RequestBuilderError::ValueEmpty);
                }
                let items = set_listing(&set);
                self.push_all(items.as_slice(), false)
            },
            Value::String(string) => {
                let text = string.as_str();
                if text.is_empty() {
                    return Err(RequestBuilderError::ValueEmpty);
                }
                self.push_argument(text.as_bytes())
            },
        }
    }

    /// Adds each of `items` in turn as an argument, stopping at the first
    /// that cannot be added (or, when `nonempty`, that is empty).
    fn push_all(&mut self, items: &[Vec<u8>], nonempty: bool) -> (r: Result<(), RequestBuilderError>)
        requires
            old(self)@.wf(),
        ensures
            final(self)@.wf(),
            (final(self)@, r) == old(self)@.push_all(items_view(items@), nonempty),
    {
        let ghost all = items_view(items@);
        let mut i: usize = 0;
        while i < items.len()
            invariant
                i <= items@.len(),
                all == items_view(items@),
                self@.wf(),
                (self@, Ok::<(), RequestBuilderError>(())) == old(self)@.push_all(
                    all.take(i as int),
                    nonempty,
                ),
            decreases items@.len() - i,
        {
            let item = items[i].as_slice();
            let ghost prev = all.take(i as int);
            let ghost next = all.take(i + 1);
            assert(next.drop_last() =~= prev);
            assert(next.last() == item@);
            if nonempty && item.len() == 0 {
                proof {
                    lemma_push_all_stops(old(self)@, items_view(items@), i as int, nonempty);
                }
                return Err(RequestBuilderError::ValueEmpty);
            }
            match self.push_argument(item) {
                Ok(()) => {},
                Err(e) => {
                    proof {
                        lemma_push_all_stops(old(self)@, items_view(items@), i as int, nonempty);
                    }
                    return Err(e);
                },
            }
            i = i + 1;
        }
        assert(all.take(items@.len() as int) =~= all);
        Ok(())
    }
}

/// The keys and values of a map listing, laid out key, value, key, value.
fn flatten_pairs(entries: &[(Vec<u8>, Vec<u8>)]) -> (r: Vec<Vec<u8>>)
    ensures
        items_view(r@) == flatten_entries(entries_view(entries@)),
{
    let mut r: Vec<Vec<u8>> = Vec::new();
    let mut i: usize = 0;
    while i < entries.len()
        invariant
            i <= entries@.len(),
            items_view(r@) == flatten_entries(entries_view(entries@.take(i as int))),
        decreases entries@.len() - i,
    {
        let k = crate::state::value::copy_bytes(entries[i].0.as_slice());
        let v = crate::state::value::copy_bytes(entries[i].1.as_slice());
        let ghost prev = entries_view(entries@.take(i as int));
        let ghost next = entries_view(entries@.take(i + 1));
        r.push(k);
        r.push(v);
        assert(next.drop_last() =~= prev);
        assert(next.last() == (entries@[i as int].0@, entries@[i as int].1@));
        assert(items_view(r@) =~= flatten_entries(next));
        i = i + 1;
    }
    assert(entries@.take(entries@.len() as int) =~= entries@);
    r
}

/// Once adding stops at an item, the items after it change nothing.
proof fn lemma_push_all_stops(start: BuilderView, items: Seq<Seq<u8>>, i: int, nonempty: bool)
    requires
        0 <= i < items.len(),
        start.push_all(items.take(i), nonempty).1 is Ok,
        start.push_all(items.take(i + 1), nonempty).1 is Err,
    ensures
        start.push_all(items, nonempty) == start.push_all(items.take(i + 1), nonempty),
    decreases items.len() - i,
{
    if i + 1 == items.len() {
        assert(items.take(i + 1) =~= items);
    } else {
        let j = items.len() - 1;
        assert(items.drop_last() =~= items.take(j));
        assert(items.take(j).take(i + 1) =~= items.take(i + 1));
        assert(items.take(j).take(i) =~= items.take(i));
        lemma_push_all_stops(start, items.take(j), i, nonempty);
    }
}

} // verus!
