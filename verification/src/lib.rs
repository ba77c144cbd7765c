//! Real-time event distribution for a multi-user task manager with chat.
//!
//! The crate tracks which users are reachable over a live connection,
//! routes event envelopes to the right subset of users, fans events out
//! over per-topic broadcast channels with per-user filtering, and runs
//! the decision logic of a reminder scheduler that injects synthetic
//! events into the same distribution paths.

pub mod ids;
pub mod envelope;
pub mod connection;
pub mod topic;
pub mod session;
pub mod reminder;
pub mod wire;
pub mod decode;
pub mod models;
pub mod dto;
