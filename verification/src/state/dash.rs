//! The concurrent maps and sets of the `dashmap` crate, as this library
//! uses them.
//!
//! Verus sees a `DashMap` or `DashSet` only through the names below for
//! what it holds, and through the wrappers that make the calls. Every
//! wrapper takes the collection by `&mut` where the call changes it, so
//! that a change is visible to the proofs even though `dashmap` itself
//! mutates through `&self`.

use crate::session::Session;
use crate::state::value::Value;
use dashmap::{DashMap, DashSet};
use vstd::prelude::*;

verus! {

#[verifier::external_type_specification]
#[verifier::external_body]
#[verifier::reject_recursive_types(K)]
#[verifier::reject_recursive_types(V)]
#[verifier::reject_recursive_types(S)]
pub struct ExDashMap<K, V, S>(DashMap<K, V, S>);

#[verifier::external_type_specification]
#[verifier::external_body]
#[verifier::reject_recursive_types(K)]
#[verifier::reject_recursive_types(S)]
pub struct ExDashSet<K, S>(DashSet<K, S>);

/// What a map of byte strings to byte strings holds.
pub uninterp spec fn byte_map_contents(m: DashMap<Vec<u8>, Vec<u8>>) -> Map<Seq<u8>, Seq<u8>>;

/// What a set of byte strings holds.
pub uninterp spec fn byte_set_contents(s: DashSet<Vec<u8>>) -> Set<Seq<u8>>;

/// What the engine's key-value store holds.
pub uninterp spec fn store_contents(m: DashMap<Vec<u8>, Value>) -> Map<Seq<u8>, Value>;

/// What the session table holds, by session id.
pub uninterp spec fn session_contents(m: DashMap<u32, Session>) -> Map<u32, Session>;

/// What a set of session ids holds.
pub uninterp spec fn id_set_contents(s: DashSet<u32>) -> Set<u32>;

/// What an index from keys to the sets of session ids subscribed to them
/// holds, each set by its items.
pub uninterp spec fn key_index_contents(m: DashMap<Vec<u8>, DashSet<u32>>) -> Map<Seq<u8>, Set<u32>>;

/// What an index from session ids to the sets of keys they are subscribed
/// to holds, each set by its items.
pub uninterp spec fn session_index_contents(m: DashMap<u32, DashSet<Vec<u8>>>) -> Map<u32, Set<Seq<u8>>>;

/// `DashMap::new`: a new map holds nothing.
#[verifier::external_body]
pub fn byte_map_new() -> (r: DashMap<Vec<u8>, Vec<u8>>)
    ensures
        byte_map_contents(r) == (Map::<Seq<u8>, Seq<u8>>::empty()),
{
    DashMap::new()
}

/// `DashMap::insert`: afterwards the key maps to the value and every other
/// key is unchanged; the value the key had before, if any, is returned.
#[verifier::external_body]
pub fn byte_map_insert(m: &mut DashMap<Vec<u8>, Vec<u8>>, key: Vec<u8>, value: Vec<u8>) -> (r:
    Option<Vec<u8>>)
    ensures
        byte_map_contents(*final(m)) == byte_map_contents(*old(m)).insert(key@, value@),
        match r {
            Some(v) => byte_map_contents(*old(m)).contains_key(key@) && v@ == byte_map_contents(
                *old(m),
            )[key@],
            None => !byte_map_contents(*old(m)).contains_key(key@),
        },
{
    m.insert(key, value)
}

/// `DashMap::len`: the number of keys.
#[verifier::external_body]
pub fn byte_map_len(m: &DashMap<Vec<u8>, Vec<u8>>) -> (r: usize)
    ensures
        r == byte_map_contents(*m).len(),
{
    m.len()
}

/// `DashMap::iter`: the key-value pairs of the map, each once, in the order
/// that the iteration visits them (which the map's hashing decides).
#[verifier::external_body]
pub fn byte_map_entries(m: &DashMap<Vec<u8>, Vec<u8>>) -> (r: Vec<(Vec<u8>, Vec<u8>)>)
    ensures
        r@.len() == byte_map_contents(*m).len(),
        forall|k: Seq<u8>|
            #[trigger] byte_map_contents(*m).contains_key(k) ==> exists|i: int|
                0 <= i < r@.len() && #[trigger] r@[i].0@ == k,
        forall|i: int|
            0 <= i < r@.len() ==> byte_map_contents(*m).contains_key(#[trigger] r@[i].0@)
                && byte_map_contents(*m)[r@[i].0@] == r@[i].1@,
        forall|i: int, j: int| 0 <= i < j < r@.len() ==> #[trigger] r@[i].0@ != #[trigger] r@[j].0@,
{
    m.iter().map(|e| (e.key().clone(), e.value().clone())).collect()
}

/// `DashMap::clone`: a copy that holds the same pairs.
#[verifier::external_body]
pub fn byte_map_clone(m: &DashMap<Vec<u8>, Vec<u8>>) -> (r: DashMap<Vec<u8>, Vec<u8>>)
    ensures
        byte_map_contents(r) == byte_map_contents(*m),
{
    m.clone()
}

/// `DashSet::new`: a new set holds nothing.
#[verifier::external_body]
pub fn byte_set_new() -> (r: DashSet<Vec<u8>>)
    ensures
        byte_set_contents(r) == (Set::<Seq<u8>>::empty()),
{
    DashSet::new()
}

/// `DashSet::insert`: afterwards the set also holds the item; the result
/// says whether it was new.
#[verifier::external_body]
pub fn byte_set_insert(s: &mut DashSet<Vec<u8>>, item: Vec<u8>) -> (r: bool)
    ensures
        byte_set_contents(*final(s)) == byte_set_contents(*old(s)).insert(item@),
        r == !byte_set_contents(*old(s)).contains(item@),
{
    s.insert(item)
}

/// `DashSet::len`: the number of items.
#[verifier::external_body]
pub fn byte_set_len(s: &DashSet<Vec<u8>>) -> (r: usize)
    ensures
        r == byte_set_contents(*s).len(),
{
    s.len()
}

/// `DashSet::iter`: the items of the set, each once, in the order that the
/// iteration visits them (which the set's hashing decides).
#[verifier::external_body]
pub fn byte_set_items(s: &DashSet<Vec<u8>>) -> (r: Vec<Vec<u8>>)
    ensures
        r@.len() == byte_set_contents(*s).len(),
        forall|k: Seq<u8>|
            #[trigger] byte_set_contents(*s).contains(k) ==> exists|i: int|
                0 <= i < r@.len() && #[trigger] r@[i]@ == k,
        forall|i: int| 0 <= i < r@.len() ==> byte_set_contents(*s).contains(#[trigger] r@[i]@),
        forall|i: int, j: int| 0 <= i < j < r@.len() ==> #[trigger] r@[i]@ != #[trigger] r@[j]@,
{
    s.iter().map(|e| e.key().clone()).collect()
}

/// `DashSet::clone`: a copy that holds the same items.
#[verifier::external_body]
pub fn byte_set_clone(s: &DashSet<Vec<u8>>) -> (r: DashSet<Vec<u8>>)
    ensures
        byte_set_contents(r) == byte_set_contents(*s),
{
    s.clone()
}

/// `DashSet::remove`: afterwards the set no longer holds the item; the
/// result says whether it held it.
#[verifier::external_body]
pub fn byte_set_remove(s: &mut DashSet<Vec<u8>>, item: &[u8]) -> (r: bool)
    ensures
        byte_set_contents(*final(s)) == byte_set_contents(*old(s)).remove(item@),
        r == byte_set_contents(*old(s)).contains(item@),
{
    s.remove(item).is_some()
}

/// `DashSet::contains`: whether the set holds the item.
#[verifier::external_body]
pub fn byte_set_contains(s: &DashSet<Vec<u8>>, item: &[u8]) -> (r: bool)
    ensures
        r == byte_set_contents(*s).contains(item@),
{
    s.contains(item)
}

/// `DashSet::new`: a new set of session ids holds nothing.
#[verifier::external_body]
pub fn id_set_new() -> (r: DashSet<u32>)
    ensures
        id_set_contents(r) == Set::<u32>::empty(),
{
    DashSet::new()
}

/// `DashSet::insert`: afterwards the set also holds the id; the result
/// says whether it was new.
#[verifier::external_body]
pub fn id_set_insert(s: &mut DashSet<u32>, id: u32) -> (r: bool)
    ensures
        id_set_contents(*final(s)) == id_set_contents(*old(s)).insert(id),
        r == !id_set_contents(*old(s)).contains(id),
{
    s.insert(id)
}

/// `DashSet::remove`: afterwards the set no longer holds the id; the
/// result says whether it held it.
#[verifier::external_body]
pub fn id_set_remove(s: &mut DashSet<u32>, id: u32) -> (r: bool)
    ensures
        id_set_contents(*final(s)) == id_set_contents(*old(s)).remove(id),
        r == id_set_contents(*old(s)).contains(id),
{
    s.remove(&id).is_some()
}

/// `DashMap::new`: a new index from keys holds nothing.
#[verifier::external_body]
pub fn key_index_new() -> (r: DashMap<Vec<u8>, DashSet<u32>>)
    ensures
        key_index_contents(r) == (Map::<Seq<u8>, Set<u32>>::empty()),
{
    DashMap::new()
}

/// `DashMap::insert`: afterwards the key maps to the set and every other
/// key is unchanged; the set the key had before, if any, is returned.
#[verifier::external_body]
pub fn key_index_insert(m: &mut DashMap<Vec<u8>, DashSet<u32>>, key: Vec<u8>, ids: DashSet<u32>) -> (r:
    Option<DashSet<u32>>)
    ensures
        key_index_contents(*final(m)) == key_index_contents(*old(m)).insert(
            key@,
            id_set_contents(ids),
        ),
        match r {
            Some(prev) => key_index_contents(*old(m)).contains_key(key@) && id_set_contents(prev)
                == key_index_contents(*old(m))[key@],
            None => !key_index_contents(*old(m)).contains_key(key@),
        },
{
    m.insert(key, ids)
}

/// `DashMap::remove`: afterwards the key is gone and every other key is
/// unchanged; the set it mapped to is handed out if it was there.
#[verifier::external_body]
pub fn key_index_remove(m: &mut DashMap<Vec<u8>, DashSet<u32>>, key: &[u8]) -> (r: Option<
    DashSet<u32>,
>)
    ensures
        key_index_contents(*final(m)) == key_index_contents(*old(m)).remove(key@),
        match r {
            Some(ids) => key_index_contents(*old(m)).contains_key(key@) && id_set_contents(ids)
                == key_index_contents(*old(m))[key@],
            None => !key_index_contents(*old(m)).contains_key(key@),
        },
{
    m.remove(key).map(|(_, ids)| ids)
}

/// `DashMap::new`: a new index from session ids holds nothing.
#[verifier::external_body]
pub fn session_index_new() -> (r: DashMap<u32, DashSet<Vec<u8>>>)
    ensures
        session_index_contents(r) == (Map::<u32, Set<Seq<u8>>>::empty()),
{
    DashMap::new()
}

/// `DashMap::insert`: afterwards the id maps to the set and every other
/// id is unchanged; the set the id had before, if any, is returned.
#[verifier::external_body]
pub fn session_index_insert(m: &mut DashMap<u32, DashSet<Vec<u8>>>, id: u32, keys: DashSet<Vec<u8>>) -> (r:
    Option<DashSet<Vec<u8>>>)
    ensures
        session_index_contents(*final(m)) == session_index_contents(*old(m)).insert(
            id,
            byte_set_contents(keys),
        ),
        match r {
            Some(prev) => session_index_contents(*old(m)).contains_key(id) && byte_set_contents(
                prev,
            ) == session_index_contents(*old(m))[id],
            None => !session_index_contents(*old(m)).contains_key(id),
        },
{
    m.insert(id, keys)
}

/// `DashMap::remove`: afterwards the id is gone and every other id is
/// unchanged; the set it mapped to is handed out if it was there.
#[verifier::external_body]
pub fn session_index_remove(m: &mut DashMap<u32, DashSet<Vec<u8>>>, id: u32) -> (r: Option<
    DashSet<Vec<u8>>,
>)
    ensures
        session_index_contents(*final(m)) == session_index_contents(*old(m)).remove(id),
        match r {
            Some(keys) => session_index_contents(*old(m)).contains_key(id) && byte_set_contents(
                keys,
            ) == session_index_contents(*old(m))[id],
            None => !session_index_contents(*old(m)).contains_key(id),
        },
{
    m.remove(&id).map(|(_, keys)| keys)
}

/// `DashMap::get`: a copy of the set that the id maps to, if any (made by
/// `DashSet::clone` while the entry is borrowed).
#[verifier::external_body]
pub fn session_index_get(m: &DashMap<u32, DashSet<Vec<u8>>>, id: u32) -> (r: Option<
    DashSet<Vec<u8>>,
>)
    ensures
        match r {
            Some(keys) => session_index_contents(*m).contains_key(id) && byte_set_contents(keys)
                == session_index_contents(*m)[id],
            None => !session_index_contents(*m).contains_key(id),
        },
{
    m.get(&id).map(|e| e.value().clone())
}

/// `DashMap::new`: a new store holds nothing.
#[verifier::external_body]
pub fn store_new() -> (r: DashMap<Vec<u8>, Value>)
    ensures
        store_contents(r) == (Map::<Seq<u8>, Value>::empty()),
{
    DashMap::new()
}

/// `DashMap::contains_key`: whether the store holds the key.
#[verifier::external_body]
pub fn store_contains_key(m: &DashMap<Vec<u8>, Value>, key: &[u8]) -> (r: bool)
    ensures
        r == store_contents(*m).contains_key(key@),
{
    m.contains_key(key)
}

/// `DashMap::insert`: afterwards the key maps to the value and every other
/// key is unchanged; the value the key had before, if any, is returned.
#[verifier::external_body]
pub fn store_insert(m: &mut DashMap<Vec<u8>, Value>, key: Vec<u8>, value: Value) -> (r: Option<
    Value,
>)
    ensures
        store_contents(*final(m)) == store_contents(*old(m)).insert(key@, value),
        match r {
            Some(v) => store_contents(*old(m)).contains_key(key@) && v == store_contents(*old(m))[key@],
            None => !store_contents(*old(m)).contains_key(key@),
        },
{
    m.insert(key, value)
}

/// `DashMap::remove`: afterwards the key is gone and every other key is
/// unchanged; the stored key and its value are returned if it was there.
#[verifier::external_body]
pub fn store_remove(m: &mut DashMap<Vec<u8>, Value>, key: &[u8]) -> (r: Option<(Vec<u8>, Value)>)
    ensures
        store_contents(*final(m)) == store_contents(*old(m)).remove(key@),
        match r {
            Some((k, v)) => store_contents(*old(m)).contains_key(key@) && k@ == key@ && v
                == store_contents(*old(m))[key@],
            None => !store_contents(*old(m)).contains_key(key@),
        },
{
    m.remove(key)
}

/// `DashMap::get`: a copy of the value stored under the key, if any (the
/// copy is made by [`Value::duplicate`] while the entry is borrowed).
#[verifier::external_body]
pub fn store_get(m: &DashMap<Vec<u8>, Value>, key: &[u8]) -> (r: Option<Value>)
    ensures
        match r {
            Some(v) => store_contents(*m).contains_key(key@) && v@ == store_contents(*m)[key@]@,
            None => !store_contents(*m).contains_key(key@),
        },
{
    m.get(key).map(|e| e.value().duplicate())
}

/// `DashMap::new`: a new session table holds nothing.
#[verifier::external_body]
pub fn session_map_new() -> (r: DashMap<u32, Session>)
    ensures
        session_contents(r) == (Map::<u32, Session>::empty()),
{
    DashMap::new()
}

/// `DashMap::contains_key`: whether the table holds a session by the id.
#[verifier::external_body]
pub fn session_map_contains_key(m: &DashMap<u32, Session>, id: u32) -> (r: bool)
    ensures
        r == session_contents(*m).contains_key(id),
{
    m.contains_key(&id)
}

/// `DashMap::insert`: afterwards the id maps to the session and every other
/// id is unchanged; the session the id had before, if any, is returned.
#[verifier::external_body]
pub fn session_map_insert(m: &mut DashMap<u32, Session>, id: u32, session: Session) -> (r: Option<
    Session,
>)
    ensures
        session_contents(*final(m)) == session_contents(*old(m)).insert(id, session),
        match r {
            Some(s) => session_contents(*old(m)).contains_key(id) && s == session_contents(
                *old(m),
            )[id],
            None => !session_contents(*old(m)).contains_key(id),
        },
{
    m.insert(id, session)
}

/// `DashMap::remove`: afterwards the id is gone and every other id is
/// unchanged; whether it was there is returned.
#[verifier::external_body]
pub fn session_map_remove(m: &mut DashMap<u32, Session>, id: u32) -> (r: bool)
    ensures
        session_contents(*final(m)) == session_contents(*old(m)).remove(id),
        r == session_contents(*old(m)).contains_key(id),
{
    m.remove(&id).is_some()
}

} // verus!
