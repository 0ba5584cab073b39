use crate::command::request::RequestView;
use crate::command::response::payload::bytes_payload;
use crate::command::response::{is_payload, write_bytes, ResponseView};
use crate::command::{reply, Answer, Dispatch, DispatchError, DispatchResult, Request};
use crate::hop::{Hop, HopView};
use crate::state::value::ValueView;
use vstd::prelude::*;

verus! {

/// Removes a key, answering the key.
pub struct Delete;

impl Dispatch for Delete {
    open spec fn panics(hop: HopView, req: RequestView) -> bool {
        false
    }

    open spec fn answer(hop: HopView, req: RequestView) -> (Answer, Map<Seq<u8>, ValueView>) {
        if req.key_type is Some {
            (Err(DispatchError::KeyTypeUnexpected), hop.state)
        } else {
            match req.key() {
                None => (Err(DispatchError::KeyUnspecified), hop.state),
                Some(k) => if !hop.state.contains_key(k) {
                    (Err(DispatchError::PreconditionFailed), hop.state)
                } else {
                    (reply(ValueView::Bytes(k)), hop.state.remove(k))
                },
            }
        }
    }

    fn dispatch(hop: &mut Hop, req: &Request, resp: &mut Vec<u8>) -> (r: DispatchResult<()>) {
        if req.key_type().is_some() {
            return Err(DispatchError::KeyTypeUnexpected);
        }
        let key = match req.key() {
            Some(k) => k,
            None => return Err(DispatchError::KeyUnspecified),
        };
        let (k, _) = match hop.state_mut().remove(key) {
            Some(pair) => pair,
            None => {
                assert(old(hop)@.state.remove(key@) =~= old(hop)@.state);
                return Err(DispatchError::PreconditionFailed);
            },
        };
        write_bytes(resp, k.as_slice());
        assert(is_payload(ResponseView::Value(ValueView::Bytes(k@)), bytes_payload(k@)));
        Ok(())
    }
}

} // verus!
