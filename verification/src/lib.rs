//! Coordination core of a peer-to-peer repository-hosting node.
//!
//! The library ties three sub-protocols — a DHT record directory, a
//! git-style pull/push transfer protocol, and a signed lifecycle-event
//! relay — to one shared session state: it validates input, resolves
//! addresses, issues outbound requests through a session model, and
//! records request/response correlations. The network transport that
//! carries the requests and the event loop that resolves responses are
//! collaborators outside this crate.

pub mod address;
pub mod blob;
pub mod entity;
pub mod errors;
pub mod handler;
pub mod json;
pub mod nostr;
pub mod record;
pub mod services;
pub mod session;
pub mod storage;
pub mod text;
