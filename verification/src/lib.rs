//! Keeps a live roster of the users sharing a voice channel with one
//! operator account, and keeps that roster correct across reconnects.
//!
//! The crate holds the decision logic only: a reconnect backoff policy,
//! a snapshot model of channel membership, an insertion-ordered roster
//! store with a deterministic textual rendering, and the reconciler that
//! applies voice-state events to the roster. All transport, persistence
//! and configuration I/O stays with the caller.

pub mod backoff;
pub mod config;
pub mod reconciler;
pub mod roster;
pub mod snapshot;
