//! Feed acquisition and state-synchronization engine for a terminal feed
//! reader: a per-source state store (the kiosk), a deterministic event
//! reducer, and the pure decision logic of the fetch orchestration loop.

pub mod client;
pub mod feed;
pub mod kiosk;
pub mod model;
pub mod serializer;
pub mod strings;
