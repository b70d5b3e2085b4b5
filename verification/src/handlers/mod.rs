//! What each endpoint decides and computes.
pub mod chat;
pub mod queue;
pub mod stats;
