//! The HTTP server that works on strings: request, response and the choice
//! of what is written back.

pub mod request;
pub mod response;
pub mod server;
