//! Milestone escrow ledger with a multi-party confirmation engine.
//!
//! The ledgers here are pure state machines: each operation takes a snapshot of
//! the records it touches, checks the request, and returns the new state together
//! with any value transfer the host must carry out. Storage, authentication, the
//! clock and the token transfers themselves belong to the host.

pub mod address;
pub mod confirmation;
pub mod escrow;
pub mod types;
