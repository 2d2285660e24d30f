//! Supervision core of an actor-model runtime.
//!
//! A `Supervisor` owns one actor's execution `Context` and repeatedly drives
//! it on a cooperative event loop (`Arbiter`). On every completion or failure
//! boundary it applies the restart policy: while the context is still
//! connected (an outstanding `Addr` handle or pending mailbox work exists) the
//! actor's restart hook runs and driving continues without yielding; once the
//! context is disconnected the supervisor terminates and releases the actor.

pub mod actor;
pub mod address;
pub mod arbiter;
pub mod context;
pub mod laws;
pub mod mailbox;
pub mod msgs;
pub mod supervisor;

