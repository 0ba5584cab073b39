//! Sessions of clients connected to the engine.

mod manager;

pub use self::manager::{SessionManager, SessionManagerView};

use vstd::prelude::*;

verus! {

/// The identifier of a session.
#[derive(Clone, Copy, Debug, PartialEq, Eq, Hash, PartialOrd, Ord, Structural)]
pub struct SessionId(u32);

impl View for SessionId {
    type V = u32;

    closed spec fn view(&self) -> u32 {
        self.0
    }
}

impl SessionId {
    /// The identifier with the given number.
    pub fn new(id: u32) -> (r: Self)
        ensures
            r@ == id,
    {
        SessionId(id)
    }

    /// The number of the identifier.
    pub fn id(&self) -> (r: u32)
        ensures
            r == self@,
    {
        self.0
    }
}

/// A client's session: the token it identified itself with and its id.
#[derive(Clone, Copy, Debug)]
pub struct Session {
    pub client_token: [u8; 32],
    pub id: u32,
}

impl Session {
    pub fn new(client_token: [u8; 32], id: u32) -> (r: Self)
        ensures
            r.client_token == client_token,
            r.id == id,
    {
        Session { client_token, id }
    }
}

} // verus!
