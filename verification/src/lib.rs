//! A capability-oriented RPC core with nested, borrow-checked service
//! references.
//!
//! A connection carries integer capabilities (`ServiceId`s) that name live
//! server objects. A method may return a handle to a sub-service whose
//! lifetime is scoped to its parent: while a child is alive, the parent is
//! locked and calls on it are rejected. This crate holds the wire codec, the
//! identifier allocator, the per-connection service registry, the dispatch
//! logic and the client proxy state machine, all with verified contracts.
//! The byte I/O that moves the encoded frames sits outside, in a thin
//! unverified shell.

pub mod client_proxy;
pub mod dispatch;
pub mod errors;
pub mod framing;
pub mod interface;
pub mod messages;
pub mod parser;
pub mod service_collection;
pub mod service_ref;
pub mod traits;
pub mod values;
pub mod wire;
