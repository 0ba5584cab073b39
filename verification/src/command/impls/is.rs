use crate::command::request::RequestView;
use crate::command::response::payload::bool_payload;
use crate::command::response::{is_payload, write_bool, ResponseView};
use crate::command::{reply, Answer, Dispatch, DispatchError, DispatchResult, Request};
use crate::hop::{Hop, HopView};
use crate::state::value::{list_view, ValueView};
use vstd::prelude::*;

verus! {

/// Answers whether every key given as an argument holds a value of the
/// requested key type.
pub struct Is;

impl Dispatch for Is {
    open spec fn panics(hop: HopView, req: RequestView) -> bool {
        false
    }

    open spec fn answer(hop: HopView, req: RequestView) -> (Answer, Map<Seq<u8>, ValueView>) {
        match req.key_type {
            None => (Err(DispatchError::KeyTypeRequired), hop.state),
            Some(kt) => if req.positions.len() == 0 {
                (Err(DispatchError::ArgumentRetrieval), hop.state)
            } else {
                let keys = req.arg_list(0);
                (
                    reply(
                        ValueView::Boolean(
                            forall|i: int|
                                0 <= i < keys.len() ==> hop.state.contains_key(#[trigger] keys[i])
                                    && hop.state[keys[i]].kind() == kt,
                        ),
                    ),
                    hop.state,
                )
            },
        }
    }

    fn dispatch(hop: &mut Hop, req: &Request, resp: &mut Vec<u8>) -> (r: DispatchResult<()>) {
        let key_type = match req.key_type() {
            Some(k) => k,
            None => return Err(DispatchError::KeyTypeRequired),
        };
        if req.arg_count() == 0 {
            return Err(DispatchError::ArgumentRetrieval);
        }
        let keys = req.arg_vec(0);
        let ghost ks = req@.arg_list(0);
        let state = hop.state();
        let mut all = true;
        let mut i: usize = 0;
        while i < keys.len()
            invariant
                i <= keys@.len(),
                list_view(keys@) == ks,
                state@ == hop@.state,
                all == forall|j: int|
                    0 <= j < i ==> state@.contains_key(#[trigger] ks[j]) && state@[ks[j]].kind()
                        == key_type,
            decreases keys@.len() - i,
        {
            assert(ks[i as int] == keys@[i as int]@);
            match state.key_type(keys[i].as_slice()) {
                Some(k) => {
                    if k != key_type {
                        all = false;
                    }
                },
                None => {
                    all = false;
                },
            }
            i = i + 1;
        }
        write_bool(resp, all);
        assert(is_payload(ResponseView::Value(ValueView::Boolean(all)), bool_payload(all)));
        Ok(())
    }
}

} // verus!
