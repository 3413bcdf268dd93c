//! The HTTP/1.1 server: request, response, status codes and the choice of
//! what is written back.

pub mod header;
pub mod method;
pub mod request;
pub mod response;
pub mod server;
pub mod status;
pub mod uri;
