//! Execution core of an RPC runtime: retry decisions with backoff, the
//! attempt loop of a call, operations layered by plugins, and log
//! formatting that redacts sensitive fields.

pub mod client;
pub mod connection;
pub mod dispatch;
pub mod http;
pub mod instrument;
pub mod plugin;
pub mod retry;
