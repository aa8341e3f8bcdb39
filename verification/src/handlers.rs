//! The handlers that turn a shard's events into changes of the shared state
//! and into actions for the caller.

pub mod commands;
pub mod general;
