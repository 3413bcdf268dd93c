//! The errors of the HTTP/1.1 server.

use vstd::prelude::*;

verus! {

/// `std::io::Error`: carried through, never looked into.
#[verifier::external_type_specification]
#[verifier::external_body]
pub struct ExIoError(std::io::Error);

/// `http::method::InvalidMethod`: carried through, never looked into.
#[verifier::external_type_specification]
#[verifier::external_body]
pub struct ExInvalidMethod(http::method::InvalidMethod);

/// `http::uri::InvalidUri`: carried through, never looked into.
#[verifier::external_type_specification]
#[verifier::external_body]
pub struct ExInvalidUri(http::uri::InvalidUri);

/// `http::header::InvalidHeaderName`: carried through, never looked into.
#[verifier::external_type_specification]
#[verifier::external_body]
pub struct ExInvalidHeaderName(http::header::InvalidHeaderName);

/// `http::header::InvalidHeaderValue`: carried through, never looked into.
#[verifier::external_type_specification]
#[verifier::external_body]
pub struct ExInvalidHeaderValue(http::header::InvalidHeaderValue);

/// Represents various errors that can occur during server operation.
#[derive(Debug)]
pub enum ServerError {
    /// The first line of the request does not have exactly 3 elements
    /// (method, path, and http version).
    BrokenFirstLine,
    /// The method is not written as a method is.
    InvalidMethod(http::method::InvalidMethod),
    /// The method is none of the nine that requests are made with.
    UnknownMethod(String),
    /// Error parsing URL.
    InvalidUrl(http::uri::InvalidUri),
    /// A header line that has no colon.
    InvalidHeader,
    /// Error parsing header name.
    InvalidHeaderName(http::header::InvalidHeaderName),
    /// Error parsing header value.
    InvalidHeaderValue(http::header::InvalidHeaderValue),
    /// The request is empty or took too long to receive.
    EmptyRequest,
    /// An empty line, or it took too long to receive.
    EmptyLine,
    /// An error occurred while reading data from a source.
    Read(std::io::Error),
    /// An error occurred while writing data to a destination.
    Write(std::io::Error),
    /// An error occurred while flushing.
    Flush(std::io::Error),
    /// A connection failed validation.
    VerificationFailed,
    /// This HTTP status does not exist.
    UnknownHttpStatus(u16),
    /// The provided path is not a file.
    FolderInsteadFile,
    /// The file is missing or something is blocking it from opening.
    OpeningFile(std::io::Error),
}

} // verus!
