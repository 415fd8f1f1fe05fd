//! Core of a block-storage "downstairs" node: the per-connection negotiation
//! state machine, the active-session arbitration registry, and the in-memory
//! job queue that enforces dependency ordering between read, write and flush
//! operations. Frame transport, the on-disk region engine and task plumbing
//! live outside this crate; the types here model their data as plain values.

pub mod dispatch;
pub mod extent;
pub mod negotiation;
pub mod notify;
pub mod protocol;
pub mod registry;
pub mod service;
pub mod work;
