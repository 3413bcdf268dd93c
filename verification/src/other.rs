//! The pool of the server that keeps text and binary data apart.

pub mod thread_pool;
