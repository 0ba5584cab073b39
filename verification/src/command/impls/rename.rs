use crate::command::request::RequestView;
use crate::command::response::payload::bytes_payload;
use crate::command::response::{is_payload, write_bytes, ResponseView};
use crate::command::{reply, Answer, Dispatch, DispatchError, DispatchResult, Request};
use crate::hop::{Hop, HopView};
use crate::state::value::ValueView;
use vstd::prelude::*;

verus! {

/// Moves a key's value to a new key that is not taken, answering the new
/// key.
pub struct Rename;

impl Dispatch for Rename {
    open spec fn panics(hop: HopView, req: RequestView) -> bool {
        false
    }

    open spec fn answer(hop: HopView, req: RequestView) -> (Answer, Map<Seq<u8>, ValueView>) {
        if req.key_type is Some {
            (Err(DispatchError::KeyTypeUnexpected), hop.state)
        } else {
            match req.arg(0) {
                None => (Err(DispatchError::KeyUnspecified), hop.state),
                Some(from) => match req.arg(1) {
                    None => (Err(DispatchError::ArgumentRetrieval), hop.state),
                    Some(to) => if !hop.state.contains_key(from) {
                        (Err(DispatchError::KeyNonexistent), hop.state)
                    } else if hop.state.contains_key(to) {
                        (Err(DispatchError::PreconditionFailed), hop.state)
                    } else {
                        (reply(ValueView::Bytes(to)), hop.state.remove(from).insert(to, hop.state[from]))
                    },
                },
            }
        }
    }

    fn dispatch(hop: &mut Hop, req: &Request, resp: &mut Vec<u8>) -> (r: DispatchResult<()>) {
        if req.key_type().is_some() {
            return Err(DispatchError::KeyTypeUnexpected);
        }
        let key = match req.arg(0) {
            Some(k) => k,
            None => return Err(DispatchError::KeyUnspecified),
        };
        let arg = match req.arg(1) {
            Some(a) => a,
            None => return Err(DispatchError::ArgumentRetrieval),
        };
        if !hop.state().contains_key(key) {
            return Err(DispatchError::KeyNonexistent);
        }
        if hop.state().contains_key(arg) {
            return Err(DispatchError::PreconditionFailed);
        }
        let state = hop.state_mut();
        let (_, v) = match state.remove(key) {
            Some(pair) => pair,
            None => return Err(DispatchError::KeyNonexistent),
        };
        state.insert(crate::state::copy_key(arg), v);
        write_bytes(resp, arg);
        assert(is_payload(ResponseView::Value(ValueView::Bytes(arg@)), bytes_payload(arg@)));
        Ok(())
    }
}

} // verus!
