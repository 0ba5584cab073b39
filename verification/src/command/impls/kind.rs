use crate::command::request::RequestView;
use crate::command::response::payload::int_payload;
use crate::command::response::{is_payload, write_int, ResponseView};
use crate::command::{reply, Answer, Dispatch, DispatchError, DispatchResult, Request};
use crate::hop::{Hop, HopView};
use crate::state::value::{Value, ValueView};
use crate::state::is_internal_key;
use vstd::prelude::*;

verus! {

/// Answers the code of the key type of a key's value.
pub struct Type;

impl Dispatch for Type {
    open spec fn panics(hop: HopView, req: RequestView) -> bool {
        req.key() matches Some(k) && req.key_type is None && is_internal_key(k)
    }

    open spec fn answer(hop: HopView, req: RequestView) -> (Answer, Map<Seq<u8>, ValueView>) {
        match req.key() {
            None => (Err(DispatchError::KeyUnspecified), hop.state),
            Some(k) => if req.key_type is Some {
                (Err(DispatchError::KeyTypeUnexpected), hop.state)
            } else if !hop.state.contains_key(k) {
                (Err(DispatchError::KeyNonexistent), hop.state)
            } else {
                (reply(ValueView::Integer(hop.state[k].kind().spec_code() as i64)), hop.state)
            },
        }
    }

    fn dispatch(hop: &mut Hop, req: &Request, resp: &mut Vec<u8>) -> (r: DispatchResult<()>) {
        let key = match req.key() {
            Some(k) => k,
            None => return Err(DispatchError::KeyUnspecified),
        };
        if req.key_type().is_some() {
            return Err(DispatchError::KeyTypeUnexpected);
        }
        let value = match hop.state().key_ref(key) {
            Some(v) => v,
            None => return Err(DispatchError::KeyNonexistent),
        };
        let code = value.kind().as_u8() as i64;
        write_int(resp, code);
        assert(is_payload(ResponseView::Value(ValueView::Integer(code)), int_payload(code)));
        Ok(())
    }
}

} // verus!
