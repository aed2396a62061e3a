//! A single-process, line-oriented broadcast chat engine.
//!
//! Clients send newline-terminated commands or messages over a stream
//! transport; the engine accumulates partial reads per client, extracts
//! complete lines, interprets the `/nick ` command, and fans every other
//! line out to all other clients, sharing one payload buffer per
//! broadcast.  The transport itself (bind, accept, non-blocking reads and
//! writes) is outside: callers feed the engine plain bytes and readiness
//! outcomes and carry its queued output back to the sockets.

pub mod lines;
pub mod render;
pub mod ext;
pub mod transport;
pub mod client;
pub mod chat;
pub mod laws;
