use crate::command::request::RequestView;
use crate::command::{Answer, Dispatch, DispatchError, DispatchResult, Request};
use crate::hop::{Hop, HopView};
use crate::state::value::ValueView;
use crate::state::is_internal_key;
use vstd::prelude::*;
use super::increment_by::{amount_of, increment_answer, IncrementBy};

verus! {

/// Subtracts the amount given as the second argument from an integer key,
/// which starts at zero; the difference wraps around at the bounds of
/// `i64`.
pub struct DecrementBy;

impl Dispatch for DecrementBy {
    open spec fn panics(hop: HopView, req: RequestView) -> bool {
        req.key() matches Some(k) && is_internal_key(k) && amount_of(req) is Some
    }

    open spec fn answer(hop: HopView, req: RequestView) -> (Answer, Map<Seq<u8>, ValueView>) {
        match req.key() {
            None => (Err(DispatchError::KeyUnspecified), hop.state),
            Some(k) => match amount_of(req) {
                Some(amount) => increment_answer(hop.state, k, 0i64.wrapping_sub(amount)),
                None => (Err(DispatchError::ArgumentRetrieval), hop.state),
            },
        }
    }

    fn dispatch(hop: &mut Hop, req: &Request, resp: &mut Vec<u8>) -> (r: DispatchResult<()>) {
        let key = match req.key() {
            Some(k) => k,
            None => return Err(DispatchError::KeyUnspecified),
        };
        match req.typed_arg::<i64>(1) {
            Some(amount) => IncrementBy::increment_int_by(hop, key, 0i64.wrapping_sub(amount), resp),
            None => Err(DispatchError::ArgumentRetrieval),
        }
    }
}

} // verus!
