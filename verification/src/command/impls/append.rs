use crate::command::request::{str_from_utf8, RequestView};
use crate::command::response::payload::{bytes_payload, items_view, list_payload, str_payload};
use crate::command::response::{is_payload, write_bytes, write_list, write_str, ResponseView};
use crate::command::{effective_key_type, reply, Answer, Dispatch, DispatchError, DispatchResult, Request};
use crate::hop::{Hop, HopView};
use crate::state::value::{list_view, Value, ValueView};
use crate::state::{copy_key, is_internal_key, KeyType};
use vstd::prelude::*;
use vstd::string::StringExecFns;
use vstd::utf8::{decode_utf8, valid_utf8};

verus! {

/// Appends the arguments after the key to a byte string, list or string
/// key, which starts empty, and answers the new value.
pub struct Append;

/// The byte strings one after another.
pub open spec fn concat_bytes(items: Seq<Seq<u8>>) -> Seq<u8>
    decreases items.len(),
{
    if items.len() == 0 {
        Seq::empty()
    } else {
        concat_bytes(items.drop_last()) + items.last()
    }
}

/// The byte strings that are valid UTF-8, decoded, one after another.
pub open spec fn concat_strs(items: Seq<Seq<u8>>) -> Seq<char>
    decreases items.len(),
{
    if items.len() == 0 {
        Seq::empty()
    } else {
        concat_strs(items.drop_last()) + if valid_utf8(items.last()) {
            decode_utf8(items.last())
        } else {
            Seq::empty()
        }
    }
}

/// Whether values of the key type can be appended to.
pub open spec fn appendable(kt: KeyType) -> bool {
    kt == KeyType::Bytes || kt == KeyType::List || kt == KeyType::String
}

/// The empty value of an appendable key type.
pub open spec fn empty_of(kt: KeyType) -> ValueView {
    match kt {
        KeyType::List => ValueView::List(Seq::empty()),
        KeyType::String => ValueView::String(Seq::empty()),
        _ => ValueView::Bytes(Seq::empty()),
    }
}

/// `current` with `args` appended, if it is of the key type `kt`.
pub open spec fn appended(kt: KeyType, current: ValueView, args: Seq<Seq<u8>>) -> Option<ValueView> {
    match (kt, current) {
        (KeyType::Bytes, ValueView::Bytes(b)) => Some(ValueView::Bytes(b + concat_bytes(args))),
        (KeyType::List, ValueView::List(l)) => Some(ValueView::List(l + args)),
        (KeyType::String, ValueView::String(s)) => Some(ValueView::String(s + concat_strs(args))),
        _ => None,
    }
}

/// Appending the arguments to the value under `k`, of the key type `kt`.
pub open spec fn append_answer(
    state: Map<Seq<u8>, ValueView>,
    k: Seq<u8>,
    kt: KeyType,
    args: Seq<Seq<u8>>,
) -> (Answer, Map<Seq<u8>, ValueView>) {
    let current = if state.contains_key(k) {
        state[k]
    } else {
        empty_of(kt)
    };
    match appended(kt, current, args) {
        Some(v) => (reply(v), state.insert(k, v)),
        None => (Err(DispatchError::KeyTypeDifferent), state),
    }
}

impl Append {
    /// The value under `key` after `default` was put there if the key was
    /// free.
    fn current(hop: &mut Hop, key: &[u8], default: Value) -> (r: Value)
        requires
            !is_internal_key(key@),
        ensures
            final(hop)@ == old(hop)@.with_state(
                if old(hop)@.state.contains_key(key@) {
                    old(hop)@.state
                } else {
                    old(hop)@.state.insert(key@, default@)
                },
            ),
            r@ == if old(hop)@.state.contains_key(key@) {
                old(hop)@.state[key@]
            } else {
                default@
            },
    {
        hop.state_mut().key_or_insert_with(key, default);
        match hop.state().key_ref(key) {
            Some(v) => v,
            None => vstd::pervasive::unreached(),
        }
    }

    fn bytes(hop: &mut Hop, args: &Vec<Vec<u8>>, resp: &mut Vec<u8>, key: &[u8]) -> (r:
        DispatchResult<()>)
        requires
            !is_internal_key(key@),
        ensures
            final(hop)@ == old(hop)@.with_state(
                append_answer(old(hop)@.state, key@, KeyType::Bytes, list_view(args@)).1,
            ),
            crate::command::answered(
                append_answer(old(hop)@.state, key@, KeyType::Bytes, list_view(args@)).0,
                r,
                old(resp)@,
                final(resp)@,
            ),
    {
        let ghost items = list_view(args@);
        let current = Self::current(hop, key, Value::bytes());
        match current {
            Value::Bytes(mut bytes) => {
                let ghost start = bytes@;
                let mut i: usize = 0;
                while i < args.len()
                    invariant
                        i <= args@.len(),
                        items == list_view(args@),
                        bytes@ == start + concat_bytes(items.take(i as int)),
                    decreases args@.len() - i,
                {
                    crate::command::response::payload::append_bytes(&mut bytes, args[i].as_slice());
                    assert(items.take(i + 1).drop_last() =~= items.take(i as int));
                    assert(bytes@ =~= start + concat_bytes(items.take(i + 1)));
                    i = i + 1;
                }
                assert(items.take(args@.len() as int) =~= items);
                write_bytes(resp, bytes.as_slice());
                assert(is_payload(ResponseView::Value(ValueView::Bytes(bytes@)), bytes_payload(bytes@)));
                let ghost v = ValueView::Bytes(bytes@);
                hop.state_mut().insert(copy_key(key), Value::Bytes(bytes));
                assert(hop@.state =~= old(hop)@.state.insert(key@, v));
                Ok(())
            },
            _ => Err(DispatchError::KeyTypeDifferent),
        }
    }

    fn list(hop: &mut Hop, args: Vec<Vec<u8>>, resp: &mut Vec<u8>, key: &[u8]) -> (r:
        DispatchResult<()>)
        requires
            !is_internal_key(key@),
        ensures
            final(hop)@ == old(hop)@.with_state(
                append_answer(old(hop)@.state, key@, KeyType::List, list_view(args@)).1,
            ),
            crate::command::answered(
                append_answer(old(hop)@.state, key@, KeyType::List, list_view(args@)).0,
                r,
                old(resp)@,
                final(resp)@,
            ),
    {
        let ghost items = list_view(args@);
        let current = Self::current(hop, key, Value::list());
        match current {
            Value::List(mut list) => {
                let ghost start = list_view(list@);
                let mut rest = args;
                list.append(&mut rest);
                assert(list_view(list@) =~= start + items);
                write_list(resp, list.as_slice());
                assert(items_view(list@) =~= list_view(list@));
                assert(is_payload(
                    ResponseView::Value(ValueView::List(list_view(list@))),
                    list_payload(list_view(list@)),
                ));
                let ghost v = ValueView::List(list_view(list@));
                hop.state_mut().insert(copy_key(key), Value::List(list));
                assert(hop@.state =~= old(hop)@.state.insert(key@, v));
                Ok(())
            },
            _ => Err(DispatchError::KeyTypeDifferent),
        }
    }

    fn string(hop: &mut Hop, args: &Vec<Vec<u8>>, resp: &mut Vec<u8>, key: &[u8]) -> (r:
        DispatchResult<()>)
        requires
            !is_internal_key(key@),
        ensures
            final(hop)@ == old(hop)@.with_state(
                append_answer(old(hop)@.state, key@, KeyType::String, list_view(args@)).1,
            ),
            crate::command::answered(
                append_answer(old(hop)@.state, key@, KeyType::String, list_view(args@)).0,
                r,
                old(resp)@,
                final(resp)@,
            ),
    {
        let ghost items = list_view(args@);
        let current = Self::current(hop, key, Value::string());
        match current {
            Value::String(mut string) => {
                let ghost start = string@;
                let mut i: usize = 0;
                while i < args.len()
                    invariant
                        i <= args@.len(),
                        items == list_view(args@),
                        string@ == start + concat_strs(items.take(i as int)),
                    decreases args@.len() - i,
                {
                    assert(items.take(i + 1).drop_last() =~= items.take(i as int));
                    match str_from_utf8(args[i].as_slice()) {
                        Some(s) => {
                            string.append(s);
                        },
                        None => {},
                    }
                    assert(string@ =~= start + concat_strs(items.take(i + 1)));
                    i = i + 1;
                }
                assert(items.take(args@.len() as int) =~= items);
                write_str(resp, string.as_str());
                assert(is_payload(ResponseView::Value(ValueView::String(string@)), str_payload(string@)));
                let ghost v = ValueView::String(string@);
                hop.state_mut().insert(copy_key(key), Value::String(string));
                assert(hop@.state =~= old(hop)@.state.insert(key@, v));
                Ok(())
            },
            _ => Err(DispatchError::KeyTypeDifferent),
        }
    }
}

impl Dispatch for Append {
    open spec fn panics(hop: HopView, req: RequestView) -> bool {
        req.arg(0) matches Some(k) && is_internal_key(k) && appendable(
            effective_key_type(hop.state, req, k),
        )
    }

    open spec fn answer(hop: HopView, req: RequestView) -> (Answer, Map<Seq<u8>, ValueView>) {
        match req.arg(0) {
            None => (Err(DispatchError::KeyUnspecified), hop.state),
            Some(k) => {
                let kt = effective_key_type(hop.state, req, k);
                if appendable(kt) {
                    append_answer(hop.state, k, kt, req.arg_list(1))
                } else {
                    (Err(DispatchError::KeyTypeDifferent), hop.state)
                }
            },
        }
    }

    fn dispatch(hop: &mut Hop, req: &Request, resp: &mut Vec<u8>) -> (r: DispatchResult<()>) {
        let key = match req.arg(0) {
            Some(k) => k,
            None => return Err(DispatchError::KeyUnspecified),
        };
        let args = req.arg_vec(1);
        let key_type = match req.key_type() {
            Some(t) => t,
            None => match hop.state().key_type(key) {
                Some(t) => t,
                None => KeyType::Bytes,
            },
        };
        match key_type {
            KeyType::Bytes => Self::bytes(hop, &args, resp, key),
            KeyType::List => Self::list(hop, args, resp, key),
            KeyType::String => Self::string(hop, &args, resp, key),
            _ => Err(DispatchError::KeyTypeDifferent),
        }
    }
}

} // verus!
