use crate::command::request::{Argument, RequestView};
use crate::command::response::payload::int_payload;
use crate::command::response::{is_payload, write_int, ResponseView};
use crate::command::{answered, reply, Answer, Dispatch, DispatchError, DispatchResult, Request};
use crate::hop::{Hop, HopView};
use crate::state::value::{Value, ValueView};
use crate::state::{copy_key, is_internal_key};
use vstd::prelude::*;

verus! {

/// Adds the amount given as the second argument to an integer key, which
/// starts at zero; the sum wraps around at the bounds of `i64`.
pub struct IncrementBy;

/// Adding `amount` to the integer under `k`, which starts at zero.
pub open spec fn increment_answer(state: Map<Seq<u8>, ValueView>, k: Seq<u8>, amount: i64) -> (
    Answer,
    Map<Seq<u8>, ValueView>,
) {
    let current = if state.contains_key(k) {
        state[k]
    } else {
        ValueView::Integer(0)
    };
    match current {
        ValueView::Integer(i) => {
            let n = i.wrapping_add(amount);
            (reply(ValueView::Integer(n)), state.insert(k, ValueView::Integer(n)))
        },
        _ => (Err(DispatchError::KeyTypeDifferent), state),
    }
}

/// The amount of a request: its second argument as an integer.
pub open spec fn amount_of(req: RequestView) -> Option<i64> {
    match req.arg(1) {
        Some(a) => <i64 as Argument>::spec_convert(a),
        None => None,
    }
}

impl IncrementBy {
    /// Adds `amount` to the integer under `key` and answers the sum.
    pub fn increment_int_by(hop: &mut Hop, key: &[u8], amount: i64, resp: &mut Vec<u8>) -> (r:
        DispatchResult<()>)
        requires
            !is_internal_key(key@),
        ensures
            final(hop)@ == old(hop)@.with_state(increment_answer(old(hop)@.state, key@, amount).1),
            answered(increment_answer(old(hop)@.state, key@, amount).0, r, old(resp)@, final(resp)@),
    {
        let current = hop.state_mut().key_or_insert_with(key, Value::integer());
        match current {
            Value::Integer(i) => {
                let n = i.wrapping_add(amount);
                hop.state_mut().insert(copy_key(key), Value::Integer(n));
                assert(hop@.state =~= old(hop)@.state.insert(key@, ValueView::Integer(n)));
                write_int(resp, n);
                assert(is_payload(ResponseView::Value(ValueView::Integer(n)), int_payload(n)));
                Ok(())
            },
            _ => Err(DispatchError::KeyTypeDifferent),
        }
    }

    /// The bit pattern of the float under `key`, where a free key first gets
    /// the integer zero: the step before a float amount is added to the key.
    pub fn float_operand(hop: &mut Hop, key: &[u8]) -> (r: DispatchResult<u64>)
        requires
            !is_internal_key(key@),
        ensures
            final(hop)@ == old(hop)@.with_state(
                if old(hop)@.state.contains_key(key@) {
                    old(hop)@.state
                } else {
                    old(hop)@.state.insert(key@, ValueView::Integer(0))
                },
            ),
            r == match final(hop)@.state[key@] {
                ValueView::Float(bits) => Ok::<u64, DispatchError>(bits),
                _ => Err::<u64, DispatchError>(DispatchError::KeyTypeDifferent),
            },
    {
        match hop.state_mut().key_or_insert_with(key, Value::integer()) {
            Value::Float(bits) => Ok(bits),
            _ => Err(DispatchError::KeyTypeDifferent),
        }
    }
}

impl Dispatch for IncrementBy {
    open spec fn panics(hop: HopView, req: RequestView) -> bool {
        req.key() matches Some(k) && is_internal_key(k) && amount_of(req) is Some
    }

    open spec fn answer(hop: HopView, req: RequestView) -> (Answer, Map<Seq<u8>, ValueView>) {
        match req.key() {
            None => (Err(DispatchError::KeyUnspecified), hop.state),
            Some(k) => match amount_of(req) {
                Some(amount) => increment_answer(hop.state, k, amount),
                None => (Err(DispatchError::ArgumentRetrieval), hop.state),
            },
        }
    }

    fn dispatch(hop: &mut Hop, req: &Request, resp: &mut Vec<u8>) -> (r: DispatchResult<()>) {
        let key = match req.key() {
            Some(k) => k,
            None => return Err(DispatchError::KeyUnspecified),
        };
        match req.typed_arg::<i64>(1) {
            Some(amount) => Self::increment_int_by(hop, key, amount, resp),
            None => Err(DispatchError::ArgumentRetrieval),
        }
    }
}

} // verus!
