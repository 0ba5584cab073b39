use crate::command::request::RequestView;
use crate::command::response::payload::{is_set_listing, items_view, list_payload};
use crate::command::response::{frame, write_list};
use crate::command::{Answer, Dispatch, DispatchError, DispatchResult, Reply, Request};
use crate::hop::{Hop, HopView};
use crate::state::dash::byte_map_contents;
use crate::state::value::{Value, ValueView};
use crate::state::{is_internal_key, KeyType};
use vstd::prelude::*;

verus! {

/// Answers the keys of a map.
pub struct Keys;

impl Dispatch for Keys {
    open spec fn panics(hop: HopView, req: RequestView) -> bool {
        req.key() matches Some(k) && is_internal_key(k) && (req.key_type is None || req.key_type
            == Some(KeyType::ByteMap))
    }

    open spec fn answer(hop: HopView, req: RequestView) -> (Answer, Map<Seq<u8>, ValueView>) {
        match req.key() {
            None => (Err(DispatchError::KeyUnspecified), hop.state),
            Some(k) => if req.key_type matches Some(t) && t != KeyType::ByteMap {
                (Err(DispatchError::KeyTypeInvalid), hop.state)
            } else if !hop.state.contains_key(k) {
                (
                    Ok(Reply::Keys(Set::empty())),
                    hop.state.insert(k, ValueView::ByteMap(Map::empty())),
                )
            } else {
                match hop.state[k] {
                    ValueView::ByteMap(m) => (Ok(Reply::Keys(m.dom())), hop.state),
                    _ => (Err(DispatchError::KeyTypeDifferent), hop.state),
                }
            },
        }
    }

    fn dispatch(hop: &mut Hop, req: &Request, resp: &mut Vec<u8>) -> (r: DispatchResult<()>) {
        let key = match req.key() {
            Some(k) => k,
            None => return Err(DispatchError::KeyUnspecified),
        };
        match req.key_type() {
            Some(KeyType::ByteMap) | None => {},
            Some(_) => return Err(DispatchError::KeyTypeInvalid),
        }
        hop.state_mut().key_or_insert_with(key, Value::map());
        let value = match hop.state().key_ref(key) {
            Some(v) => v,
            None => vstd::pervasive::unreached(),
        };
        match value {
            Value::ByteMap(m) => {
                let keys = map_keys(&m);
                write_list(resp, keys.as_slice());
                let ghost items = items_view(keys@);
                assert(is_set_listing(items, byte_map_contents(m).dom()));
                let ghost ks = byte_map_contents(m).dom();
                assert(is_set_listing(items, ks) && resp@ == old(resp)@ + frame(list_payload(items)));
                proof {
                    crate::command::lemma_wrote_keys(items, ks, old(resp)@, resp@);
                }
                proof {
                    if !old(hop)@.state.contains_key(key@) {
                        assert(ks =~= Set::<Seq<u8>>::empty());
                    }
                }
                Ok(())
            },
            _ => Err(DispatchError::KeyTypeDifferent),
        }
    }
}

/// The keys of a map, each once, in the order that its iteration visits
/// them.
fn map_keys(m: &dashmap::DashMap<Vec<u8>, Vec<u8>>) -> (r: Vec<Vec<u8>>)
    ensures
        is_set_listing(items_view(r@), byte_map_contents(*m).dom()),
{
    let entries = crate::command::response::payload::map_listing(m);
    let ghost es = crate::command::response::payload::entries_view(entries@);
    let ghost mm = byte_map_contents(*m);
    let mut keys: Vec<Vec<u8>> = Vec::new();
    let mut i: usize = 0;
    while i < entries.len()
        invariant
            i <= entries@.len(),
            es == crate::command::response::payload::entries_view(entries@),
            keys@.len() == i,
            forall|j: int| 0 <= j < i ==> #[trigger] keys@[j]@ == es[j].0,
        decreases entries@.len() - i,
    {
        let k = crate::state::copy_key(entries[i].0.as_slice());
        keys.push(k);
        i = i + 1;
    }
    let ghost items = items_view(keys@);
    assert forall|j: int| 0 <= j < items.len() implies items[j] == es[j].0 by {
        assert(keys@[j]@ == es[j].0);
    }
    assert forall|k: Seq<u8>| #[trigger] mm.dom().contains(k) implies exists|j: int|
        0 <= j < items.len() && #[trigger] items[j] == k by {
        let j = choose|j: int| 0 <= j < es.len() && #[trigger] es[j].0 == k;
        assert(items[j] == k);
    }
    assert forall|a: int, b: int| 0 <= a < b < items.len() implies #[trigger] items[a]
        != #[trigger] items[b] by {
        assert(es[a].0 != es[b].0);
    }
    assert forall|j: int| 0 <= j < items.len() implies mm.dom().contains(#[trigger] items[j]) by {
        assert(mm.contains_key(es[j].0));
    }
    keys
}

} // verus!
