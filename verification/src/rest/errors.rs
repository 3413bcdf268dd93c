//! The errors of the thread-based HTTP server.

use vstd::prelude::*;

verus! {

/// Represents various errors that can occur during server operation.
#[derive(Debug)]
pub enum ServerError {
    /// The request is empty or took too long to receive.
    EmptyRequest,
    /// An empty line, or it took too long to receive.
    EmptyLine,
    /// The first line of the request does not have exactly 3 elements
    /// (method, path, and http version).
    BrokenFirstLine,
    /// A connection failed validation.
    VerificationFailed,
    /// An unknown HTTP method was received.
    UnknownMethod(String),
    /// An error occurred when getting the socket address.
    GetSocketAddr(std::io::Error),
    /// The socket address was empty, although it was expected to have a value.
    SocketAddrEmpty,
    /// An error occurred while reading data from a source.
    ReadError(std::io::Error),
    /// An error occurred while writing data to a destination.
    WriteError(std::io::Error),
    /// An error occurred while flushing.
    FlushError(std::io::Error),
}

} // verus!
