//! Shard lifecycle and cache coordination for a multi-shard gateway client.
//!
//! The library holds what a process needs to know of its shards and of the
//! guilds they serve, and decides what each event of the gateway does to it:
//!
//! - `shard`: the lifecycle state of every shard of the cluster, and how many
//!   of them are ready;
//! - `entity`, `cache`: the guilds, roles and users that the events have
//!   brought, keyed by kind and identifier;
//! - `loading`: whether the initial snapshot of a guild has fully arrived;
//! - `correlator`: the requests that wait for the one reply that carries
//!   their nonce;
//! - `handlers`: what each event changes, what it asks the caller to carry
//!   out, and which messages are let through to the commands;
//! - `wire`, `snapshot`, `cold_resume`: what is written when the process
//!   stops, how it is laid out in bytes, and how the next process starts
//!   from it;
//! - `context`: all of the above as the one state that the shards share;
//! - `config`, `database`, `stats`, `commands`, `text`: what the rest of the
//!   bot computes around them.
//!
//! What reaches outside the process, the gateway and the stores, is left to
//! the caller: the handlers take plain values and return the actions to carry
//! out. The one thing that the library reads for itself is the clock, for the
//! time at which the process started.

pub mod cache;
pub mod cold_resume;
pub mod commands;
pub mod config;
pub mod context;
pub mod correlator;
pub mod database;
pub mod entity;
pub mod events;
pub mod handlers;
pub mod loading;
pub mod shard;
pub mod snapshot;
pub mod stats;
pub mod text;
pub mod wire;
