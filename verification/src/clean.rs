//! The server without a protocol.

pub mod server;
