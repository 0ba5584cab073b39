use crate::command::response::{write_list, ResponseView};
use crate::command::{reply, Answer, Dispatch, DispatchResult, Request};
use crate::command::request::RequestView;
use crate::hop::{Hop, HopView};
use crate::command::response::is_payload;
use crate::command::response::payload::{items_view, list_payload};
use crate::state::value::{list_view, ValueView};
use vstd::prelude::*;

verus! {

/// Answers the request's arguments as a list.
pub struct Echo;

impl Dispatch for Echo {
    open spec fn panics(hop: HopView, req: RequestView) -> bool {
        false
    }

    open spec fn answer(hop: HopView, req: RequestView) -> (Answer, Map<Seq<u8>, ValueView>) {
        (reply(ValueView::List(req.arg_list(0))), hop.state)
    }

    fn dispatch(hop: &mut Hop, req: &Request, resp: &mut Vec<u8>) -> (r: DispatchResult<()>) {
        let args = req.arg_vec(0);
        write_list(resp, args.as_slice());
        assert(items_view(args@) =~= list_view(args@));
        assert(is_payload(
            ResponseView::Value(ValueView::List(req@.arg_list(0))),
            list_payload(list_view(args@)),
        ));
        Ok(())
    }
}

} // verus!
