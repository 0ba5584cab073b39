use super::Session;
use crate::state::dash::{session_contents, session_map_contains_key, session_map_insert, session_map_new, session_map_remove};
use dashmap::DashMap;
use vstd::prelude::*;

verus! {

/// What a session manager is: the id the next session gets and the
/// sessions by id.
pub struct SessionManagerView {
    pub next_id: u32,
    pub sessions: Map<u32, Session>,
}

/// The sessions of the engine.
#[derive(Debug)]
pub struct SessionManager {
    next_id: u32,
    sessions: DashMap<u32, Session>,
}

impl View for SessionManager {
    type V = SessionManagerView;

    closed spec fn view(&self) -> SessionManagerView {
        SessionManagerView { next_id: self.next_id, sessions: session_contents(self.sessions) }
    }
}

impl Default for SessionManager {
    /// A manager without sessions.
    fn default() -> (r: Self)
        ensures
            r@.next_id == 0,
            r@.sessions == Map::<u32, Session>::empty(),
    {
        SessionManager::new()
    }
}

impl SessionManager {
    /// A manager without sessions, whose first session gets id 0.
    pub fn new() -> (r: Self)
        ensures
            r@.next_id == 0,
            r@.sessions == Map::<u32, Session>::empty(),
    {
        SessionManager { next_id: 0, sessions: session_map_new() }
    }

    /// Whether the id that the next session would get is still free. Ids
    /// are handed out in turn and start over after the largest `u32`.
    pub fn can_add(&self) -> (r: bool)
        ensures
            r == !self@.sessions.contains_key(self@.next_id),
    {
        !session_map_contains_key(&self.sessions, self.next_id)
    }

    /// Adds a session for the client and returns it; it gets the next id.
    pub fn add(&mut self, client_token: [u8; 32]) -> (r: Session)
        requires
            !old(self)@.sessions.contains_key(old(self)@.next_id),
        ensures
            r == (Session { client_token, id: old(self)@.next_id }),
            final(self)@.sessions == old(self)@.sessions.insert(old(self)@.next_id, r),
            final(self)@.next_id == old(self)@.next_id.wrapping_add(1),
    {
        let id = self.next_id();
        let session = Session::new(client_token, id);
        session_map_insert(&mut self.sessions, id, Session::new(client_token, id));
        self.next_id = id.wrapping_add(1);
        session
    }

    /// Removes a session by id; answers whether there was one.
    pub fn remove(&mut self, id: u32) -> (r: bool)
        ensures
            r == old(self)@.sessions.contains_key(id),
            final(self)@.sessions == old(self)@.sessions.remove(id),
            final(self)@.next_id == old(self)@.next_id,
    {
        session_map_remove(&mut self.sessions, id)
    }

    fn next_id(&self) -> (r: u32)
        ensures
            r == self@.next_id,
    {
        self.next_id
    }
}

} // verus!
