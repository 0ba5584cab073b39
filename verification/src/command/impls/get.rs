use crate::command::request::RequestView;
use crate::command::response::{is_payload, write_value, ResponseView};
use crate::command::{reply, Answer, Dispatch, DispatchError, DispatchResult, Request};
use crate::hop::{Hop, HopView};
use crate::state::value::{Value, ValueView};
use crate::state::is_internal_key;
use vstd::prelude::*;

verus! {

/// Answers a key's value, if it is of the requested key type.
pub struct Get;

impl Dispatch for Get {
    open spec fn panics(hop: HopView, req: RequestView) -> bool {
        req.key() matches Some(k) && is_internal_key(k)
    }

    open spec fn answer(hop: HopView, req: RequestView) -> (Answer, Map<Seq<u8>, ValueView>) {
        match req.key() {
            None => (Err(DispatchError::KeyUnspecified), hop.state),
            Some(k) => if !hop.state.contains_key(k) {
                (Err(DispatchError::KeyNonexistent), hop.state)
            } else if req.key_type matches Some(kt) && hop.state[k].kind() != kt {
                (Err(DispatchError::KeyTypeDifferent), hop.state)
            } else {
                (reply(hop.state[k]), hop.state)
            },
        }
    }

    fn dispatch(hop: &mut Hop, req: &Request, resp: &mut Vec<u8>) -> (r: DispatchResult<()>) {
        let key = match req.key() {
            Some(k) => k,
            None => return Err(DispatchError::KeyUnspecified),
        };
        let value = match hop.state().key_ref(key) {
            Some(v) => v,
            None => return Err(DispatchError::KeyNonexistent),
        };
        if let Some(key_type) = req.key_type() {
            if value.kind() != key_type {
                return Err(DispatchError::KeyTypeDifferent);
            }
        }
        write_value(resp, &value);
        let ghost p = choose|p: Seq<u8>|
            crate::command::response::is_value_payload(value@, p) && resp@ == old(resp)@
                + crate::command::response::frame(p);
        assert(is_payload(ResponseView::Value(value@), p));
        Ok(())
    }
}

} // verus!
