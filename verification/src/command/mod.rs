//! Commands: their identifiers, errors, requests and responses, and the
//! commands themselves.

pub mod command_id;
pub mod error;
pub mod impls;
pub mod laws;
pub mod request;
pub mod response;

pub use self::command_id::{ArgumentNotation, CommandId, InvalidCommandId};
pub use self::error::{Error as DispatchError, Result as DispatchResult};
pub use self::request::Request;
pub use self::response::Response;

use self::request::RequestView;
use self::response::payload::{is_set_listing, list_payload};
use self::response::{frame, is_payload, is_value_payload, write_value, ResponseView};
use crate::hop::{Hop, HopView};
use crate::state::value::{Value, ValueView};
use crate::state::KeyType;
use vstd::prelude::*;

verus! {

/// What a command answers on success.
pub enum Reply {
    /// A response.
    Response(ResponseView),
    /// A list of the given keys, each once, in the order in which the map
    /// that holds them visits them.
    Keys(Set<Seq<u8>>),
}

/// What a command answers: a reply, or the error it fails with.
pub type Answer = DispatchResult<Reply>;

/// The buffer went from `before` to `after` by the writing of `reply`.
pub open spec fn wrote(reply: Reply, before: Seq<u8>, after: Seq<u8>) -> bool {
    match reply {
        Reply::Response(resp) => exists|p: Seq<u8>| #[trigger]
            is_payload(resp, p) && after == before + frame(p),
        Reply::Keys(keys) => exists|items: Seq<Seq<u8>>| #[trigger]
            is_set_listing(items, keys) && after == before + frame(list_payload(items)),
    }
}

/// A listing of keys written as a list is a reply of those keys.
pub proof fn lemma_wrote_keys(items: Seq<Seq<u8>>, keys: Set<Seq<u8>>, before: Seq<u8>, after: Seq<u8>)
    requires
        is_set_listing(items, keys),
        after == before + frame(list_payload(items)),
    ensures
        wrote(Reply::Keys(keys), before, after),
{
    assert(exists|it: Seq<Seq<u8>>| #[trigger]
        is_set_listing(it, keys) && after == before + frame(list_payload(it)));
    let r = Reply::Keys(keys);
    assert(r matches Reply::Keys(k) && k == keys);
}

/// Writes a value as a response.
pub fn write_value_reply(resp: &mut Vec<u8>, value: &Value)
    ensures
        wrote(Reply::Response(ResponseView::Value(value@)), old(resp)@, final(resp)@),
{
    write_value(resp, value);
    proof {
        let p = choose|p: Seq<u8>| is_value_payload(value@, p) && resp@ == old(resp)@ + frame(p);
        assert(is_payload(ResponseView::Value(value@), p));
    }
}

/// Dispatching answered `a` with the result `r`, and the response buffer
/// went from `before` to `after`: a reply is written behind what the
/// buffer held, an error writes nothing.
pub open spec fn answered(a: Answer, r: DispatchResult<()>, before: Seq<u8>, after: Seq<u8>) -> bool {
    match a {
        Ok(reply) => r is Ok && wrote(reply, before, after),
        Err(e) => {
            &&& r == Err::<(), DispatchError>(e)
            &&& after == before
        },
    }
}

/// A reply of a response.
pub open spec fn reply(v: ValueView) -> Answer {
    Ok(Reply::Response(ResponseView::Value(v)))
}

/// The key type that the request works with: the requested one, else that
/// of the key's value, else bytes.
pub open spec fn effective_key_type(state: Map<Seq<u8>, ValueView>, req: RequestView, k: Seq<u8>) -> KeyType {
    match req.key_type {
        Some(t) => t,
        None => if state.contains_key(k) {
            state[k].kind()
        } else {
            KeyType::Bytes
        },
    }
}

/// A command of the engine.
pub trait Dispatch {
    /// Whether the command panics on the engine and request: it does when
    /// it reaches into one of the engine's internal keys.
    spec fn panics(hop: HopView, req: RequestView) -> bool;

    /// What the command answers on the engine and request, and the store
    /// it leaves.
    spec fn answer(hop: HopView, req: RequestView) -> (Answer, Map<Seq<u8>, ValueView>);

    /// Carries out the request, writing the response to `resp`.
    fn dispatch(hop: &mut Hop, req: &Request, resp: &mut Vec<u8>) -> (r: DispatchResult<()>)
        requires
            !Self::panics(old(hop)@, req@),
        ensures
            final(hop)@ == old(hop)@.with_state(Self::answer(old(hop)@, req@).1),
            answered(Self::answer(old(hop)@, req@).0, r, old(resp)@, final(resp)@),
    ;
}

} // verus!
