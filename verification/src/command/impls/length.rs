use crate::command::request::RequestView;
use crate::command::response::payload::int_payload;
use crate::command::response::{is_payload, write_int, ResponseView};
use crate::command::{effective_key_type, reply, Answer, Dispatch, DispatchError, DispatchResult, Request};
use crate::hop::{Hop, HopView};
use crate::state::dash::{byte_map_len, byte_set_len};
use crate::state::value::{Value, ValueView};
use crate::state::{is_internal_key, KeyType};
use vstd::prelude::*;
use vstd::string::StrSliceExecFns;

verus! {

/// Answers the length of a key's value: the number of bytes, items, entries
/// or characters.
pub struct Length;

/// The length of a value of the key type `kt`, if it is of that type.
pub open spec fn length_of(kt: KeyType, v: ValueView) -> Option<nat> {
    match (kt, v) {
        (KeyType::Bytes, ValueView::Bytes(b)) => Some(b.len()),
        (KeyType::List, ValueView::List(l)) => Some(l.len()),
        (KeyType::ByteMap, ValueView::ByteMap(m)) => Some(m.len()),
        (KeyType::ByteSet, ValueView::ByteSet(s)) => Some(s.len()),
        (KeyType::String, ValueView::String(s)) => Some(s.len()),
        _ => None,
    }
}

/// Whether a length can be asked of values of the key type.
pub open spec fn has_length(kt: KeyType) -> bool {
    kt == KeyType::Bytes || kt == KeyType::List || kt == KeyType::ByteMap || kt == KeyType::ByteSet
        || kt == KeyType::String
}

impl Dispatch for Length {
    open spec fn panics(hop: HopView, req: RequestView) -> bool {
        req.key() matches Some(k) && is_internal_key(k) && has_length(
            effective_key_type(hop.state, req, k),
        )
    }

    open spec fn answer(hop: HopView, req: RequestView) -> (Answer, Map<Seq<u8>, ValueView>) {
        match req.key() {
            None => (Err(DispatchError::KeyUnspecified), hop.state),
            Some(k) => {
                let kt = effective_key_type(hop.state, req, k);
                if !has_length(kt) {
                    (Err(DispatchError::KeyTypeInvalid), hop.state)
                } else if !hop.state.contains_key(k) {
                    (Err(DispatchError::KeyNonexistent), hop.state)
                } else {
                    match length_of(kt, hop.state[k]) {
                        Some(n) => (reply(ValueView::Integer(n as i64)), hop.state),
                        None => (Err(DispatchError::KeyTypeDifferent), hop.state),
                    }
                }
            },
        }
    }

    fn dispatch(hop: &mut Hop, req: &Request, resp: &mut Vec<u8>) -> (r: DispatchResult<()>) {
        let key = match req.key() {
            Some(k) => k,
            None => return Err(DispatchError::KeyUnspecified),
        };
        let key_type = match req.key_type() {
            Some(t) => t,
            None => match hop.state().key_type(key) {
                Some(t) => t,
                None => KeyType::Bytes,
            },
        };
        match key_type {
            KeyType::Bytes | KeyType::List | KeyType::ByteMap | KeyType::ByteSet | KeyType::String => {},
            _ => return Err(DispatchError::KeyTypeInvalid),
        }
        let value = match hop.state().key_ref(key) {
            Some(v) => v,
            None => return Err(DispatchError::KeyNonexistent),
        };
        let len: usize = match (key_type, &value) {
            (KeyType::Bytes, Value::Bytes(b)) => b.len(),
            (KeyType::List, Value::List(l)) => l.len(),
            (KeyType::ByteMap, Value::ByteMap(m)) => byte_map_len(m),
            (KeyType::ByteSet, Value::ByteSet(s)) => byte_set_len(s),
            (KeyType::String, Value::String(s)) => s.as_str().unicode_len(),
            _ => return Err(DispatchError::KeyTypeDifferent),
        };
        let n = len as i64;
        write_int(resp, n);
        assert(is_payload(ResponseView::Value(ValueView::Integer(n)), int_payload(n)));
        Ok(())
    }
}

} // verus!
