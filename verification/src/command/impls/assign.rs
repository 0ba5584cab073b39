use crate::codec::from_be64;
use crate::command::request::{Argument, RequestView};
use crate::command::{effective_key_type, reply, write_value_reply, Answer, Dispatch, DispatchError, DispatchResult, Request};
use crate::hop::{Hop, HopView};
use crate::state::value::{Value, ValueView};
use crate::state::{copy_key, is_internal_key, KeyType};
use dashmap::{DashMap, DashSet};
use vstd::prelude::*;
use vstd::utf8::{decode_utf8, valid_utf8};

verus! {

/// Sets a key to a value of the requested key type, or of the type that
/// the key holds, made from the arguments after the key, and answers the
/// value.
pub struct SetValue;

/// The value of key type `kt` that the arguments after the key make, if
/// they make one.
pub open spec fn stored_value(kt: KeyType, req: RequestView) -> Option<ValueView> {
    match kt {
        KeyType::Boolean => match req.arg(1) {
            Some(a) => match <bool as Argument>::spec_convert(a) {
                Some(b) => Some(ValueView::Boolean(b)),
                None => None,
            },
            None => None,
        },
        KeyType::Bytes => match req.arg(1) {
            Some(a) => Some(ValueView::Bytes(a)),
            None => None,
        },
        KeyType::Float => match req.arg(1) {
            Some(a) => if a.len() < 8 {
                None
            } else {
                Some(ValueView::Float(from_be64(a.take(8))))
            },
            None => None,
        },
        KeyType::Integer => match req.arg(1) {
            Some(a) => match <i64 as Argument>::spec_convert(a) {
                Some(i) => Some(ValueView::Integer(i)),
                None => None,
            },
            None => None,
        },
        KeyType::List => Some(ValueView::List(req.arg_list(1))),
        KeyType::ByteMap => Some(ValueView::ByteMap(req.pairs_map(1, Map::empty()))),
        KeyType::ByteSet => Some(ValueView::ByteSet(req.arg_list(1).to_set())),
        KeyType::String => match req.arg(1) {
            Some(a) => if valid_utf8(a) {
                Some(ValueView::String(decode_utf8(a)))
            } else {
                None
            },
            None => None,
        },
    }
}

impl SetValue {
    /// Replaces the value under `key`.
    fn store(hop: &mut Hop, key: &[u8], value: Value)
        ensures
            final(hop)@ == old(hop)@.with_state(old(hop)@.state.insert(key@, value@)),
    {
        let ghost v = value@;
        let state = hop.state_mut();
        state.remove(key);
        state.insert(copy_key(key), value);
        assert(state@ =~= old(hop)@.state.insert(key@, v));
    }

    /// The value that the arguments after the key make for the key type.
    pub(crate) fn value_of(req: &Request, key_type: KeyType) -> (r: Option<Value>)
        requires
            req@.positions.len() > 0,
        ensures
            match r {
                Some(v) => stored_value(key_type, req@) == Some(v@),
                None => stored_value(key_type, req@) is None,
            },
    {
        match key_type {
            KeyType::Boolean => match req.typed_arg::<bool>(1) {
                Some(b) => Some(Value::Boolean(b)),
                None => None,
            },
            KeyType::Bytes => match req.arg(1) {
                Some(a) => Some(Value::Bytes(crate::state::value::copy_bytes(a))),
                None => None,
            },
            KeyType::Float => match req.typed_arg_float_bits(1) {
                Some(bits) => Some(Value::Float(bits)),
                None => None,
            },
            KeyType::Integer => match req.typed_arg::<i64>(1) {
                Some(i) => Some(Value::Integer(i)),
                None => None,
            },
            KeyType::List => Some(Value::List(req.arg_vec(1))),
            KeyType::ByteMap => match req.typed_args::<DashMap<Vec<u8>, Vec<u8>>>() {
                Some(m) => Some(Value::ByteMap(m)),
                None => vstd::pervasive::unreached(),
            },
            KeyType::ByteSet => match req.typed_args::<DashSet<Vec<u8>>>() {
                Some(s) => Some(Value::ByteSet(s)),
                None => vstd::pervasive::unreached(),
            },
            KeyType::String => match req.typed_arg_str(1) {
                Some(s) => Some(Value::String(s.to_owned())),
                None => None,
            },
        }
    }
}

impl Dispatch for SetValue {
    open spec fn panics(hop: HopView, req: RequestView) -> bool {
        req.key() matches Some(k) && is_internal_key(k) && req.arg(1) is Some && (req.key_type is None
            || stored_value(effective_key_type(hop.state, req, k), req) is Some)
    }

    open spec fn answer(hop: HopView, req: RequestView) -> (Answer, Map<Seq<u8>, ValueView>) {
        match req.key() {
            None => (Err(DispatchError::KeyUnspecified), hop.state),
            Some(k) => if req.arg(1) is None {
                (Err(DispatchError::ArgumentRetrieval), hop.state)
            } else {
                match stored_value(effective_key_type(hop.state, req, k), req) {
                    Some(v) => (reply(v), hop.state.insert(k, v)),
                    None => (Err(DispatchError::ArgumentRetrieval), hop.state),
                }
            },
        }
    }

    fn dispatch(hop: &mut Hop, req: &Request, resp: &mut Vec<u8>) -> (r: DispatchResult<()>) {
        let key = match req.key() {
            Some(k) => k,
            None => return Err(DispatchError::KeyUnspecified),
        };
        if req.arg(1).is_none() {
            return Err(DispatchError::ArgumentRetrieval);
        }
        let key_type = match req.key_type() {
            Some(t) => t,
            None => {
                hop.state_mut().key_or_insert_with(key, Value::bytes());
                match hop.state().key_type(key) {
                    Some(t) => t,
                    None => vstd::pervasive::unreached(),
                }
            },
        };
        let value = match Self::value_of(req, key_type) {
            Some(v) => v,
            None => return Err(DispatchError::ArgumentRetrieval),
        };
        write_value_reply(resp, &value);
        Self::store(hop, key, value);
        assert(hop@.state =~= old(hop)@.state.insert(key@, value@));
        Ok(())
    }
}

} // verus!
