//! An embeddable server core: an HTTP request decoder, a response encoder,
//! a fallback page table, the per-connection state machine and the
//! bookkeeping of a worker pool, each with a machine-checked contract.

pub mod buffer;
pub mod clean;
pub mod errors;
pub mod http;
pub mod http_11;
pub mod other;
pub mod pages;
pub mod response;
pub mod rest;
pub mod server;
pub mod server_tcp;
pub mod string_map;
pub mod text;
pub mod thread_pool;
