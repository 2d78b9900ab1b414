//! Session and connection-pooling core of a browser-to-shell gateway.
//!
//! The library holds the decisions: which pooled connection a session gets,
//! when idle or old connections are evicted, how live sessions are tracked,
//! how inbound control messages are answered and how shell output is batched.
//! Opening channels, reading sockets and timers are left to the caller, who
//! hands in plain values (times in milliseconds, liveness flags, byte chunks).

pub mod error;
pub mod endpoint;
pub mod pool;
pub mod registry;
pub mod stream;
pub mod hub;
pub mod laws;
pub mod command;
pub mod keys;
pub mod settings;
pub mod models;
