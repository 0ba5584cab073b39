//! Which sessions are subscribed to which keys.
//!
//! [`Subscriptions`] keeps two indexes that mirror each other: the keys
//! that each session is subscribed to, and the sessions subscribed to each
//! key. Mathematically it is the set of its (session id, key) pairs, as the
//! index by session lists them; every operation keeps the index by key in
//! step with it.

use crate::session::SessionId;
use crate::state::copy_key;
use crate::state::dash::{byte_set_contains, byte_set_contents, byte_set_insert, byte_set_items, byte_set_new, byte_set_remove, id_set_contents, id_set_insert, id_set_new, id_set_remove, key_index_contents, key_index_insert, key_index_new, key_index_remove, session_index_contents, session_index_get, session_index_insert, session_index_new, session_index_remove};
use dashmap::{DashMap, DashSet};
use vstd::prelude::*;

verus! {

/// Whether the index from sessions lists `key` under `id`.
pub open spec fn in_sessions(m: Map<u32, Set<Seq<u8>>>, id: u32, key: Seq<u8>) -> bool {
    m.contains_key(id) && m[id].contains(key)
}

/// Whether the index from keys lists `id` under `key`.
pub open spec fn in_keys(m: Map<Seq<u8>, Set<u32>>, key: Seq<u8>, id: u32) -> bool {
    m.contains_key(key) && m[key].contains(id)
}

/// The (session id, key) pairs that an index from sessions lists.
pub open spec fn pairs_of(m: Map<u32, Set<Seq<u8>>>) -> Set<(u32, Seq<u8>)> {
    Set::new(|p: (u32, Seq<u8>)| in_sessions(m, p.0, p.1))
}

/// Whether one of the first `n` items is `key`.
spec fn listed(items: Seq<Vec<u8>>, n: int, key: Seq<u8>) -> bool {
    exists|j: int| 0 <= j < n && #[trigger] items[j]@ == key
}

/// The subscriptions of sessions to keys.
#[derive(Debug)]
pub struct Subscriptions {
    keys: DashMap<Vec<u8>, DashSet<u32>>,
    sessions: DashMap<u32, DashSet<Vec<u8>>>,
}

impl View for Subscriptions {
    type V = Set<(u32, Seq<u8>)>;

    closed spec fn view(&self) -> Set<(u32, Seq<u8>)> {
        pairs_of(session_index_contents(self.sessions))
    }
}

impl Subscriptions {
    /// The two indexes list the same pairs.
    pub closed spec fn wf(self) -> bool {
        let s = session_index_contents(self.sessions);
        let k = key_index_contents(self.keys);
        forall|id: u32, key: Seq<u8>|
            #![trigger in_sessions(s, id, key)]
            #![trigger in_keys(k, key, id)]
            in_sessions(s, id, key) == in_keys(k, key, id)
    }

    /// No subscriptions.
    pub fn new() -> (r: Self)
        ensures
            r.wf(),
            r@ == (Set::<(u32, Seq<u8>)>::empty()),
    {
        let r = Subscriptions { keys: key_index_new(), sessions: session_index_new() };
        assert(r@ =~= Set::<(u32, Seq<u8>)>::empty());
        r
    }

    /// Whether the session is subscribed to the key.
    pub fn is_subscribed(&self, key: &[u8], session: SessionId) -> (r: bool)
        ensures
            r == self@.contains((session@, key@)),
    {
        match session_index_get(&self.sessions, session.id()) {
            Some(keys) => byte_set_contains(&keys, key),
            None => false,
        }
    }

    /// Subscribes the session to the key. Answers `true` if the
    /// subscription is new, and `false` if it already existed.
    pub fn subscribe(&mut self, key: Vec<u8>, session: SessionId) -> (r: bool)
        ensures
            old(self).wf() ==> final(self).wf(),
            r == !old(self)@.contains((session@, key@)),
            final(self)@ == old(self)@.insert((session@, key@)),
    {
        let ghost s0 = session_index_contents(self.sessions);
        let ghost k0 = key_index_contents(self.keys);
        let id = session.id();
        let mut keys_of = match session_index_remove(&mut self.sessions, id) {
            Some(set) => set,
            None => byte_set_new(),
        };
        let added = byte_set_insert(&mut keys_of, copy_key(key.as_slice()));
        session_index_insert(&mut self.sessions, id, keys_of);
        let mut ids = match key_index_remove(&mut self.keys, key.as_slice()) {
            Some(set) => set,
            None => id_set_new(),
        };
        id_set_insert(&mut ids, id);
        let ghost kv = key@;
        key_index_insert(&mut self.keys, key, ids);
        let ghost s1 = session_index_contents(self.sessions);
        let ghost k1 = key_index_contents(self.keys);
        assert forall|i: u32, kk: Seq<u8>| #[trigger] in_sessions(s1, i, kk) == (in_sessions(
            s0,
            i,
            kk,
        ) || (i == id && kk == kv)) by {}
        assert forall|kk: Seq<u8>, i: u32| #[trigger] in_keys(k1, kk, i) == (in_keys(k0, kk, i) || (
        i == id && kk == kv)) by {}
        assert(self@ =~= old(self)@.insert((session@, kv)));
        added
    }

    /// Unsubscribes the session from the key. Answers whether it was
    /// subscribed.
    pub fn unsubscribe(&mut self, key: &[u8], session: SessionId) -> (r: bool)
        ensures
            old(self).wf() ==> final(self).wf(),
            r == old(self)@.contains((session@, key@)),
            final(self)@ == old(self)@.remove((session@, key@)),
    {
        let ghost s0 = session_index_contents(self.sessions);
        let ghost k0 = key_index_contents(self.keys);
        let id = session.id();
        let removed = match session_index_remove(&mut self.sessions, id) {
            Some(mut keys_of) => {
                let r = byte_set_remove(&mut keys_of, key);
                session_index_insert(&mut self.sessions, id, keys_of);
                r
            },
            None => false,
        };
        match key_index_remove(&mut self.keys, key) {
            Some(mut ids) => {
                id_set_remove(&mut ids, id);
                key_index_insert(&mut self.keys, copy_key(key), ids);
            },
            None => {},
        }
        let ghost s1 = session_index_contents(self.sessions);
        let ghost k1 = key_index_contents(self.keys);
        assert forall|i: u32, kk: Seq<u8>| #[trigger] in_sessions(s1, i, kk) == (in_sessions(
            s0,
            i,
            kk,
        ) && !(i == id && kk == key@)) by {}
        assert forall|kk: Seq<u8>, i: u32| #[trigger] in_keys(k1, kk, i) == (in_keys(k0, kk, i)
            && !(i == id && kk == key@)) by {}
        assert(self@ =~= old(self)@.remove((session@, key@)));
        removed
    }

    /// Unsubscribes the session from every key. Answers whether it was
    /// subscribed to any.
    pub fn remove_session(&mut self, session: SessionId) -> (r: bool)
        ensures
            old(self).wf() ==> final(self).wf(),
            r == exists|k: Seq<u8>| old(self)@.contains((session@, k)),
            final(self)@ == old(self)@.filter(|p: (u32, Seq<u8>)| p.0 != session@),
    {
        let ghost s0 = session_index_contents(self.sessions);
        let ghost k0 = key_index_contents(self.keys);
        let id = session.id();
        match session_index_remove(&mut self.sessions, id) {
            None => {
                assert(self@ =~= old(self)@.filter(|p: (u32, Seq<u8>)| p.0 != session@));
                assert(!exists|k: Seq<u8>| old(self)@.contains((session@, k)));
                false
            },
            Some(keys_of) => {
                let items = byte_set_items(&keys_of);
                let ghost set = byte_set_contents(keys_of);
                let mut i: usize = 0;
                while i < items.len()
                    invariant
                        0 <= i <= items@.len(),
                        session_index_contents(self.sessions) == s0.remove(id),
                        s0.contains_key(id) && set == s0[id],
                        forall|k: Seq<u8>| #[trigger]
                            set.contains(k) ==> exists|j: int|
                                0 <= j < items@.len() && #[trigger] items@[j]@ == k,
                        forall|j: int| 0 <= j < items@.len() ==> set.contains(#[trigger] items@[j]@),
                        forall|kk: Seq<u8>, i2: u32| #[trigger]
                            in_keys(key_index_contents(self.keys), kk, i2) == (in_keys(k0, kk, i2)
                                && !(i2 == id && listed(items@, i as int, kk))),
                    decreases items@.len() - i,
                {
                    let key = &items[i];
                    let ghost kprev = key_index_contents(self.keys);
                    match key_index_remove(&mut self.keys, key.as_slice()) {
                        Some(mut ids) => {
                            id_set_remove(&mut ids, id);
                            key_index_insert(&mut self.keys, copy_key(key.as_slice()), ids);
                        },
                        None => {},
                    }
                    let ghost knext = key_index_contents(self.keys);
                    assert forall|kk: Seq<u8>, i2: u32| #[trigger] in_keys(knext, kk, i2) == (
                    in_keys(k0, kk, i2) && !(i2 == id && listed(items@, i + 1, kk))) by {
                        assert(in_keys(kprev, kk, i2) == (in_keys(k0, kk, i2) && !(i2 == id
                            && listed(items@, i as int, kk))));
                        if listed(items@, i + 1, kk) && !listed(items@, i as int, kk) {
                            let j = choose|j: int| 0 <= j < i + 1 && #[trigger] items@[j]@ == kk;
                            assert(j == i);
                        }
                        if listed(items@, i as int, kk) {
                            let j = choose|j: int| 0 <= j < i && #[trigger] items@[j]@ == kk;
                            assert(0 <= j < i + 1 && items@[j]@ == kk);
                        }
                        if kk == key@ {
                            assert(listed(items@, i + 1, kk)) by {
                                assert(items@[i as int]@ == kk);
                            }
                        }
                    }
                    i = i + 1;
                }
                let ghost s1 = session_index_contents(self.sessions);
                let ghost k1 = key_index_contents(self.keys);
                proof {
                    if old(self).wf() {
                        assert forall|i2: u32, kk: Seq<u8>|
                            #![trigger in_sessions(s1, i2, kk)]
                            #![trigger in_keys(k1, kk, i2)]
                            in_sessions(s1, i2, kk) == in_keys(k1, kk, i2) by {
                            assert(in_sessions(s0, i2, kk) == in_keys(k0, kk, i2));
                            if i2 == id && set.contains(kk) {
                                let j = choose|j: int|
                                    0 <= j < items@.len() && #[trigger] items@[j]@ == kk;
                                assert(listed(items@, items@.len() as int, kk));
                            }
                        }
                    }
                }
                assert(self@ =~= old(self)@.filter(|p: (u32, Seq<u8>)| p.0 != session@));
                if items.len() > 0 {
                    assert(old(self)@.contains((session@, items@[0]@)));
                } else {
                    assert forall|k: Seq<u8>| !old(self)@.contains((session@, k)) by {
                        if set.contains(k) {
                            let j = choose|j: int| 0 <= j < items@.len() && #[trigger] items@[j]@ == k;
                        }
                    }
                }
                items.len() > 0
            },
        }
    }
}

/// Unsubscribing a session from a key that it just subscribed to anew
/// leaves the subscriptions as they were, and answers that it was
/// subscribed.
pub proof fn law_unsubscribe_undoes_subscribe(subs: Set<(u32, Seq<u8>)>, id: u32, key: Seq<u8>)
    requires
        !subs.contains((id, key)),
    ensures
        subs.insert((id, key)).contains((id, key)),
        subs.insert((id, key)).remove((id, key)) == subs,
{
    assert(subs.insert((id, key)).remove((id, key)) =~= subs);
}

} // verus!
