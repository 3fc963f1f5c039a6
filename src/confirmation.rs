//! Multi-party confirmation: per-party sign-off on an escrow, checked against a
//! threshold policy.

pub mod logic;
pub mod storage;
pub mod threshold;
pub mod types;
