use crate::command::request::RequestView;
use crate::command::{Answer, Dispatch, DispatchError, DispatchResult, Request};
use crate::hop::{Hop, HopView};
use crate::state::value::ValueView;
use crate::state::is_internal_key;
use vstd::prelude::*;
use super::increment_by::{increment_answer, IncrementBy};

verus! {

/// Adds one to an integer key, which starts at zero.
pub struct Increment;

impl Dispatch for Increment {
    open spec fn panics(hop: HopView, req: RequestView) -> bool {
        req.key() matches Some(k) && is_internal_key(k)
    }

    open spec fn answer(hop: HopView, req: RequestView) -> (Answer, Map<Seq<u8>, ValueView>) {
        match req.key() {
            None => (Err(DispatchError::KeyUnspecified), hop.state),
            Some(k) => increment_answer(hop.state, k, 1),
        }
    }

    fn dispatch(hop: &mut Hop, req: &Request, resp: &mut Vec<u8>) -> (r: DispatchResult<()>) {
        let key = match req.key() {
            Some(k) => k,
            None => return Err(DispatchError::KeyUnspecified),
        };
        IncrementBy::increment_int_by(hop, key, 1, resp)
    }
}

} // verus!
