//! Errors, start-up notices and worker pools of the thread-based servers.

pub mod errors;
pub mod server_info;
pub mod thread_pool;
