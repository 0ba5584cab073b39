//! Responses: the values and errors that the engine answers with.
//!
//! A response is written as its payload (see [`payload`]) behind the
//! payload's length in four big-endian bytes.

pub mod context;
pub mod laws;
pub mod payload;

pub use self::context::{Context, Instruction, ParseError};

use self::payload::{append_bytes, bool_payload, bytes_payload, dispatch_error_payload, float_payload, int_payload, is_map_listing, is_set_listing, items_view, list_payload, map_payload, parse_error_payload, set_payload, str_payload};
use crate::codec::{be32, push_be32};
use crate::command::error::Error as DispatchError;
use crate::command::request::ParseError as RequestParseError;
use crate::state::dash::{byte_map_contents, byte_set_contents};
use crate::state::value::{list_view, Value, ValueView};
use dashmap::{DashMap, DashSet};
use vstd::prelude::*;
use vstd::std_specs::convert::FromSpecImpl;

verus! {

/// The type of a response's payload, its first byte.
#[derive(Clone, Copy, Debug, PartialEq, Eq, Hash, Structural)]
pub enum ResponseType {
    Boolean,
    Bytes,
    Float,
    Integer,
    List,
    ByteMap,
    ByteSet,
    String,
    ParseError,
    DispatchError,
}

impl ResponseType {
    pub open spec fn spec_code(self) -> u8 {
        match self {
            ResponseType::Boolean => 0,
            ResponseType::Bytes => 1,
            ResponseType::Float => 2,
            ResponseType::Integer => 3,
            ResponseType::List => 4,
            ResponseType::ByteMap => 5,
            ResponseType::ByteSet => 6,
            ResponseType::String => 7,
            ResponseType::ParseError => 8,
            ResponseType::DispatchError => 9,
        }
    }

    pub open spec fn spec_from_u8(value: u8) -> Option<ResponseType> {
        if value == 0 {
            Some(ResponseType::Boolean)
        } else if value == 1 {
            Some(ResponseType::Bytes)
        } else if value == 2 {
            Some(ResponseType::Float)
        } else if value == 3 {
            Some(ResponseType::Integer)
        } else if value == 4 {
            Some(ResponseType::List)
        } else if value == 5 {
            Some(ResponseType::ByteMap)
        } else if value == 6 {
            Some(ResponseType::ByteSet)
        } else if value == 7 {
            Some(ResponseType::String)
        } else if value == 8 {
            Some(ResponseType::ParseError)
        } else if value == 9 {
            Some(ResponseType::DispatchError)
        } else {
            None
        }
    }

    /// The wire code of the type.
    pub fn as_u8(self) -> (r: u8)
        ensures
            r == self.spec_code(),
    {
        match self {
            ResponseType::Boolean => 0,
            ResponseType::Bytes => 1,
            ResponseType::Float => 2,
            ResponseType::Integer => 3,
            ResponseType::List => 4,
            ResponseType::ByteMap => 5,
            ResponseType::ByteSet => 6,
            ResponseType::String => 7,
            ResponseType::ParseError => 8,
            ResponseType::DispatchError => 9,
        }
    }

    /// The type with the given wire code.
    pub fn try_from(value: u8) -> (r: Result<ResponseType, ()>)
        ensures
            match ResponseType::spec_from_u8(value) {
                Some(t) => r == Ok::<ResponseType, ()>(t),
                None => r == Err::<ResponseType, ()>(()),
            },
    {
        match value {
            0 => Ok(ResponseType::Boolean),
            1 => Ok(ResponseType::Bytes),
            2 => Ok(ResponseType::Float),
            3 => Ok(ResponseType::Integer),
            4 => Ok(ResponseType::List),
            5 => Ok(ResponseType::ByteMap),
            6 => Ok(ResponseType::ByteSet),
            7 => Ok(ResponseType::String),
            8 => Ok(ResponseType::ParseError),
            9 => Ok(ResponseType::DispatchError),
            _ => Err(()),
        }
    }
}

/// Every response type is found again from its own wire code.
pub proof fn lemma_response_type_code_roundtrip(t: ResponseType)
    ensures
        ResponseType::spec_from_u8(t.spec_code()) == Some(t),
{
}

/// A response of the engine.
#[derive(Debug)]
pub enum Response {
    DispatchError(DispatchError),
    ParseError(RequestParseError),
    Value(Value),
}

/// What a response is, mathematically.
pub enum ResponseView {
    DispatchError(DispatchError),
    ParseError(RequestParseError),
    Value(ValueView),
}

impl View for Response {
    type V = ResponseView;

    open spec fn view(&self) -> ResponseView {
        match self {
            Response::DispatchError(e) => ResponseView::DispatchError(*e),
            Response::ParseError(e) => ResponseView::ParseError(*e),
            Response::Value(v) => ResponseView::Value(v@),
        }
    }
}

impl From<bool> for Response {
    fn from(value: bool) -> (r: Response) {
        Response::Value(Value::Boolean(value))
    }
}

impl FromSpecImpl<bool> for Response {
    open spec fn obeys_from_spec() -> bool {
        true
    }

    open spec fn from_spec(value: bool) -> Response {
        Response::Value(Value::Boolean(value))
    }
}

impl From<Vec<u8>> for Response {
    fn from(value: Vec<u8>) -> (r: Response) {
        Response::Value(Value::Bytes(value))
    }
}

impl FromSpecImpl<Vec<u8>> for Response {
    open spec fn obeys_from_spec() -> bool {
        true
    }

    open spec fn from_spec(value: Vec<u8>) -> Response {
        Response::Value(Value::Bytes(value))
    }
}

impl From<i64> for Response {
    fn from(value: i64) -> (r: Response) {
        Response::Value(Value::Integer(value))
    }
}

impl FromSpecImpl<i64> for Response {
    open spec fn obeys_from_spec() -> bool {
        true
    }

    open spec fn from_spec(value: i64) -> Response {
        Response::Value(Value::Integer(value))
    }
}

impl From<Vec<Vec<u8>>> for Response {
    fn from(value: Vec<Vec<u8>>) -> (r: Response) {
        Response::Value(Value::List(value))
    }
}

impl FromSpecImpl<Vec<Vec<u8>>> for Response {
    open spec fn obeys_from_spec() -> bool {
        true
    }

    open spec fn from_spec(value: Vec<Vec<u8>>) -> Response {
        Response::Value(Value::List(value))
    }
}

impl From<DashMap<Vec<u8>, Vec<u8>>> for Response {
    fn from(value: DashMap<Vec<u8>, Vec<u8>>) -> (r: Response) {
        Response::Value(Value::ByteMap(value))
    }
}

impl FromSpecImpl<DashMap<Vec<u8>, Vec<u8>>> for Response {
    open spec fn obeys_from_spec() -> bool {
        true
    }

    open spec fn from_spec(value: DashMap<Vec<u8>, Vec<u8>>) -> Response {
        Response::Value(Value::ByteMap(value))
    }
}

impl From<DashSet<Vec<u8>>> for Response {
    fn from(value: DashSet<Vec<u8>>) -> (r: Response) {
        Response::Value(Value::ByteSet(value))
    }
}

impl FromSpecImpl<DashSet<Vec<u8>>> for Response {
    open spec fn obeys_from_spec() -> bool {
        true
    }

    open spec fn from_spec(value: DashSet<Vec<u8>>) -> Response {
        Response::Value(Value::ByteSet(value))
    }
}

impl From<String> for Response {
    fn from(value: String) -> (r: Response) {
        Response::Value(Value::String(value))
    }
}

impl FromSpecImpl<String> for Response {
    open spec fn obeys_from_spec() -> bool {
        true
    }

    open spec fn from_spec(value: String) -> Response {
        Response::Value(Value::String(value))
    }
}

impl From<DispatchError> for Response {
    fn from(value: DispatchError) -> (r: Response) {
        Response::DispatchError(value)
    }
}

impl FromSpecImpl<DispatchError> for Response {
    open spec fn obeys_from_spec() -> bool {
        true
    }

    open spec fn from_spec(value: DispatchError) -> Response {
        Response::DispatchError(value)
    }
}

impl From<RequestParseError> for Response {
    fn from(value: RequestParseError) -> (r: Response) {
        Response::ParseError(value)
    }
}

impl FromSpecImpl<RequestParseError> for Response {
    open spec fn obeys_from_spec() -> bool {
        true
    }

    open spec fn from_spec(value: RequestParseError) -> Response {
        Response::ParseError(value)
    }
}

/// A payload behind its length in four big-endian bytes. A length that
/// does not fit in four bytes is cut to its low 32 bits, as the lengths
/// inside a payload are cut to the width of their fields.
pub open spec fn frame(payload: Seq<u8>) -> Seq<u8> {
    be32(payload.len() as u32) + payload
}

/// `bytes` is a payload of the value `v`. A map or a set has one payload
/// for each order of its entries.
pub open spec fn is_value_payload(v: ValueView, bytes: Seq<u8>) -> bool {
    match v {
        ValueView::Boolean(b) => bytes == bool_payload(b),
        ValueView::Bytes(b) => bytes == bytes_payload(b),
        ValueView::Float(f) => bytes == float_payload(f),
        ValueView::Integer(i) => bytes == int_payload(i),
        ValueView::List(l) => bytes == list_payload(l),
        ValueView::ByteMap(m) => exists|es: Seq<(Seq<u8>, Seq<u8>)>|
            is_map_listing(es, m) && bytes == map_payload(es),
        ValueView::ByteSet(s) => exists|its: Seq<Seq<u8>>|
            is_set_listing(its, s) && bytes == set_payload(its),
        ValueView::String(s) => bytes == str_payload(s),
    }
}

/// `bytes` is a payload of the response `r`.
pub open spec fn is_payload(r: ResponseView, bytes: Seq<u8>) -> bool {
    match r {
        ResponseView::DispatchError(e) => bytes == dispatch_error_payload(e),
        ResponseView::ParseError(e) => bytes == parse_error_payload(e),
        ResponseView::Value(v) => is_value_payload(v, bytes),
    }
}

/// Writes a payload behind its length.
fn write_frame(to: &mut Vec<u8>, payload: &[u8])
    ensures
        final(to)@ == old(to)@ + frame(payload@),
{
    push_be32(to, payload.len() as u32);
    append_bytes(to, payload);
    assert(final(to)@ =~= old(to)@ + frame(payload@));
}

/// Writes a boolean response.
pub fn write_bool(to: &mut Vec<u8>, value: bool)
    ensures
        final(to)@ == old(to)@ + frame(bool_payload(value)),
{
    let p = payload::write_bool(value);
    write_frame(to, p.as_slice());
}

/// Writes a byte string response.
pub fn write_bytes(to: &mut Vec<u8>, value: &[u8])
    ensures
        final(to)@ == old(to)@ + frame(bytes_payload(value@)),
{
    let p = payload::write_bytes(value);
    write_frame(to, p.as_slice());
}

/// Writes a dispatch error response.
pub fn write_dispatch_error(to: &mut Vec<u8>, value: DispatchError)
    ensures
        final(to)@ == old(to)@ + frame(dispatch_error_payload(value)),
{
    let p = payload::write_dispatch_error(value);
    write_frame(to, p.as_slice());
}

/// Writes a parse error response.
pub fn write_parse_error(to: &mut Vec<u8>, value: RequestParseError)
    ensures
        final(to)@ == old(to)@ + frame(parse_error_payload(value)),
{
    let p = payload::write_parse_error(value);
    write_frame(to, p.as_slice());
}

/// Writes a float response, the float given by its bit pattern.
pub fn write_float(to: &mut Vec<u8>, bits: u64)
    ensures
        final(to)@ == old(to)@ + frame(float_payload(bits)),
{
    let p = payload::write_float(bits);
    write_frame(to, p.as_slice());
}

/// Writes an integer response.
pub fn write_int(to: &mut Vec<u8>, value: i64)
    ensures
        final(to)@ == old(to)@ + frame(int_payload(value)),
{
    let p = payload::write_int(value);
    write_frame(to, p.as_slice());
}

/// Writes a list response.
pub fn write_list(to: &mut Vec<u8>, value: &[Vec<u8>])
    ensures
        final(to)@ == old(to)@ + frame(list_payload(items_view(value@))),
{
    let p = payload::write_list(value);
    write_frame(to, p.as_slice());
}

/// Writes a map response, its entries in the order that the map's iteration
/// visits them.
pub fn write_map(to: &mut Vec<u8>, value: &DashMap<Vec<u8>, Vec<u8>>)
    ensures
        exists|es: Seq<(Seq<u8>, Seq<u8>)>|
            is_map_listing(es, byte_map_contents(*value)) && final(to)@ == old(to)@ + frame(
                map_payload(es),
            ),
{
    let p = payload::write_map(value);
    assert(is_value_payload(ValueView::ByteMap(byte_map_contents(*value)), p@));
    write_frame(to, p.as_slice());
}

/// Writes a set response, its items in the order that the set's iteration
/// visits them.
pub fn write_set(to: &mut Vec<u8>, value: &DashSet<Vec<u8>>)
    ensures
        exists|its: Seq<Seq<u8>>|
            is_set_listing(its, byte_set_contents(*value)) && final(to)@ == old(to)@ + frame(
                set_payload(its),
            ),
{
    let p = payload::write_set(value);
    assert(is_value_payload(ValueView::ByteSet(byte_set_contents(*value)), p@));
    write_frame(to, p.as_slice());
}

/// Writes a string response.
pub fn write_str(to: &mut Vec<u8>, value: &str)
    ensures
        final(to)@ == old(to)@ + frame(str_payload(value@)),
{
    let p = payload::write_str(value);
    write_frame(to, p.as_slice());
}

/// The payload of a value.
pub fn value_payload(value: &Value) -> (r: Vec<u8>)
    ensures
        is_value_payload(value@, r@),
{
    match value {
        Value::Boolean(b) => payload::write_bool(*b),
        Value::Bytes(b) => payload::write_bytes(b.as_slice()),
        Value::Float(f) => payload::write_float(*f),
        Value::Integer(i) => payload::write_int(*i),
        Value::List(l) => {
            let r = payload::write_list(l.as_slice());
            assert(items_view(l@) =~= list_view(l@));
            r
        },
        Value::ByteMap(m) => payload::write_map(m),
        Value::ByteSet(s) => payload::write_set(s),
        Value::String(s) => payload::write_str(s.as_str()),
    }
}

/// Writes a value response.
pub fn write_value(to: &mut Vec<u8>, value: &Value)
    ensures
        exists|p: Seq<u8>| is_value_payload(value@, p) && final(to)@ == old(to)@ + frame(p),
{
    let p = value_payload(value);
    write_frame(to, p.as_slice());
}

impl Response {
    /// The payload of the response, without its length.
    pub fn into_bytes(&self) -> (r: Vec<u8>)
        ensures
            is_payload(self@, r@),
    {
        match self {
            Response::DispatchError(e) => payload::write_dispatch_error(*e),
            Response::ParseError(e) => payload::write_parse_error(*e),
            Response::Value(v) => value_payload(v),
        }
    }

    /// The response as written on the wire: its payload behind the
    /// payload's length.
    pub fn as_bytes(&self) -> (r: Vec<u8>)
        ensures
            exists|p: Seq<u8>| is_payload(self@, p) && r@ == frame(p),
    {
        let mut buf = Vec::new();
        self.copy_to(&mut buf);
        assert(buf@ =~= Seq::<u8>::empty() + buf@);
        buf
    }

    /// Appends the response as written on the wire.
    pub fn copy_to(&self, buf: &mut Vec<u8>)
        ensures
            exists|p: Seq<u8>| is_payload(self@, p) && final(buf)@ == old(buf)@ + frame(p),
    {
        let p = self.into_bytes();
        write_frame(buf, p.as_slice());
    }
}

} // verus!
