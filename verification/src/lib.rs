//! A key-value engine with a compact binary request/response protocol.
//!
//! The engine keeps typed values (booleans, bytes, floats, integers, lists,
//! maps, sets and strings) by byte keys and answers commands that arrive as
//! binary requests. Requests are decoded incrementally by a
//! [`command::request::Context`], dispatched against the engine's state, and
//! answered with binary responses that a [`command::response::Context`] can
//! decode again.

pub mod codec;
pub mod command;
pub mod hop;
pub mod metrics;
pub mod pubsub;
pub mod session;
pub mod state;
