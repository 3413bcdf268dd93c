//! The thread-based server that keeps text and binary data apart.

pub mod request;
pub mod response;
pub mod server_tcp;
pub mod tcp_server;
