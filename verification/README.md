# hop_engine

A key-value engine with a compact binary protocol, verified with Verus.

The engine keeps typed values (booleans, byte strings, floats given by their
bit patterns, integers, lists, maps, sets and strings) under byte keys.
Clients send binary requests; the engine decodes them incrementally,
dispatches each to a command, and answers with a binary response that can
itself be decoded incrementally.

## Layout

- `src/` — the verified library.
  - `codec.rs`: big-endian numbers on the wire.
  - `command/`: command identifiers, dispatch errors, requests (their
    encoding, a builder and an incremental decoder), responses (payloads,
    framed writers and an incremental decoder), the commands themselves
    (`impls/`) and the laws that relate them (`laws.rs`, with the laws of
    requests and responses beside their decoders).
  - `hop.rs`: the engine, its configuration and builder, and `dispatch`.
  - `metrics.rs`, `session/`, `state/`: counters, sessions and the store.
  - `pubsub.rs`: which sessions are subscribed to which keys.
  - `state/dash.rs` and `command/request/positions.rs`: the trusted
    declarations through which the library uses `dashmap` and `arrayvec`.
- `app/` — ordinary Rust around the library: text forms of its errors,
  the channels of publish/subscribe over `futures-intrusive`, float arithmetic,
  and a dispatch that panics on internal keys as the engine does.
- `tests/` — tests of the library.
