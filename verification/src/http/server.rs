//! The HTTP server that names a status by its text: the choice of what is
//! written for a response, and the stages of one connection.

use crate::buffer::frozen_slice;
use crate::http::request::Request;
use crate::http::response::{encoded, Response, ResponseView};
use crate::pages::PageTable;
use crate::rest::errors::ServerError;
use vstd::prelude::*;

verus! {

/// The bytes that are written for the response `v` under the table `pages`:
/// the page that is registered for its status, whatever else the response
/// holds, else its encoding.
pub open spec fn resolved(pages: Map<Seq<u8>, Seq<u8>>, v: ResponseView) -> Seq<u8> {
    if pages.dom().contains(v.status_code) {
        pages[v.status_code]
    } else {
        encoded(v)
    }
}

/// Where a connection stands.
#[derive(Debug, Clone, Copy, PartialEq, Eq, Structural)]
pub enum Stage {
    /// The connection was accepted; the admission check is due.
    Accepted,
    /// The request is being decoded.
    Decoding,
    /// The handler has the request.
    Handling,
    /// The bytes for the handler's response are being chosen. A connection
    /// passes through this stage within the step that takes in the response.
    Resolving,
    /// The bytes are being written.
    Writing,
    /// The connection has ended.
    Closed,
    /// The admission check failed: nothing was read.
    Rejected,
}

/// What happened on a connection.
#[derive(Debug)]
pub enum Event {
    /// The admission check passed or failed.
    Checked(bool),
    /// The decoder came to a request or to an error.
    Decoded(Result<Request, ServerError>),
    /// The handler gave its response.
    Handled(Response),
    /// The bytes were written and flushed.
    Written,
    /// Writing failed.
    WriteFailed(std::io::Error),
    /// Flushing failed.
    FlushFailed(std::io::Error),
}

/// What is to be done next on a connection.
#[derive(Debug)]
pub enum Action {
    /// Decode a request from the stream.
    Decode,
    /// Hand the request to the handler.
    Handle(Request),
    /// Write these bytes and flush.
    Write(Vec<u8>),
    /// Drop the connection; the job ends with this result.
    Finish(Result<(), ServerError>),
}

/// Whether `event` is one that can happen at `stage`.
pub open spec fn expected(stage: Stage, event: Event) -> bool {
    match stage {
        Stage::Accepted => event is Checked,
        Stage::Decoding => event is Decoded,
        Stage::Handling => event is Handled,
        Stage::Writing => event is Written || event is WriteFailed || event is FlushFailed,
        _ => false,
    }
}

/// The stage that follows `stage` on `event`.
pub open spec fn next_stage(stage: Stage, event: Event) -> Stage {
    match (stage, event) {
        (Stage::Accepted, Event::Checked(passed)) => if passed {
            Stage::Decoding
        } else {
            Stage::Rejected
        },
        (Stage::Decoding, Event::Decoded(Ok(_))) => Stage::Handling,
        (Stage::Handling, Event::Handled(_)) => Stage::Writing,
        _ => Stage::Closed,
    }
}

/// Server with HTTP protocol.
pub struct HttpServer;

impl HttpServer {
    /// Registers the encoding of `page` for the status `code`.
    pub fn set_def_page(pages: &mut PageTable, code: &[u8], page: &Response)
        ensures
            final(pages)@ == old(pages)@.insert(code@, encoded(page@)),
    {
        let bytes = page.as_bytes();
        pages.register(
            vstd::slice::slice_to_vec(code),
            vstd::slice::slice_to_vec(frozen_slice(&bytes)),
        );
    }

    /// The bytes that are written for `response`: the page that is registered
    /// for its status, whatever else the response holds, else its encoding.
    pub fn resolve(pages: &PageTable, response: &Response) -> (r: Vec<u8>)
        ensures
            r@ == resolved(pages@, response@),
    {
        match pages.lookup(response.status_code.as_slice()) {
            Some(page) => page.clone(),
            None => {
                let bytes = response.as_bytes();
                vstd::slice::slice_to_vec(frozen_slice(&bytes))
            },
        }
    }

    /// Whether `event` is one that can happen at `stage`.
    pub fn fits(stage: Stage, event: &Event) -> (b: bool)
        ensures
            b == expected(stage, *event),
    {
        match (stage, event) {
            (Stage::Accepted, Event::Checked(_)) => true,
            (Stage::Decoding, Event::Decoded(_)) => true,
            (Stage::Handling, Event::Handled(_)) => true,
            (Stage::Writing, Event::Written) => true,
            (Stage::Writing, Event::WriteFailed(_)) => true,
            (Stage::Writing, Event::FlushFailed(_)) => true,
            (_, _) => false,
        }
    }

    /// One step of a connection: from where it stands and what happened to
    /// where it stands next and what is to be done.
    pub fn handle_connection(stage: Stage, event: Event, pages: &PageTable) -> (r: (Stage, Action))
        requires
            expected(stage, event),
        ensures
            r.0 == next_stage(stage, event),
            match (stage, event) {
                (Stage::Accepted, Event::Checked(passed)) => if passed {
                    r.1 is Decode
                } else {
                    r.1 matches Action::Finish(Err(ServerError::VerificationFailed))
                },
                (Stage::Decoding, Event::Decoded(Ok(request))) => r.1 matches Action::Handle(q)
                    && q == request,
                (Stage::Decoding, Event::Decoded(Err(error))) => r.1 matches Action::Finish(
                    Err(e),
                ) && e == error,
                (Stage::Handling, Event::Handled(response)) => r.1 matches Action::Write(b) && b@
                    == resolved(pages@, response@),
                (Stage::Writing, Event::Written) => r.1 matches Action::Finish(Ok(_)),
                (Stage::Writing, Event::WriteFailed(error)) => r.1 matches Action::Finish(
                    Err(ServerError::WriteError(e)),
                ) && e == error,
                (Stage::Writing, Event::FlushFailed(error)) => r.1 matches Action::Finish(
                    Err(ServerError::FlushError(e)),
                ) && e == error,
                _ => true,
            },
    {
        match (stage, event) {
            (Stage::Accepted, Event::Checked(passed)) => {
                if passed {
                    (Stage::Decoding, Action::Decode)
                } else {
                    (Stage::Rejected, Action::Finish(Err(ServerError::VerificationFailed)))
                }
            },
            (Stage::Decoding, Event::Decoded(Ok(request))) => (
                Stage::Handling,
                Action::Handle(request),
            ),
            (Stage::Decoding, Event::Decoded(Err(error))) => (
                Stage::Closed,
                Action::Finish(Err(error)),
            ),
            (Stage::Handling, Event::Handled(response)) => (
                Stage::Writing,
                Action::Write(HttpServer::resolve(pages, &response)),
            ),
            (Stage::Writing, Event::Written) => (Stage::Closed, Action::Finish(Ok(()))),
            (Stage::Writing, Event::WriteFailed(error)) => (
                Stage::Closed,
                Action::Finish(Err(ServerError::WriteError(error))),
            ),
            (Stage::Writing, Event::FlushFailed(error)) => (
                Stage::Closed,
                Action::Finish(Err(ServerError::FlushError(error))),
            ),
            (_, _) => (Stage::Closed, Action::Finish(Ok(()))),
        }
    }
}

/// For a status that has a registered page, what is written is that page,
/// whatever the handler put into the response.
pub proof fn lemma_fallback_page_wins(pages: Map<Seq<u8>, Seq<u8>>, a: ResponseView, b: ResponseView)
    requires
        pages.dom().contains(a.status_code),
        a.status_code == b.status_code,
    ensures
        resolved(pages, a) == pages[a.status_code],
        resolved(pages, a) == resolved(pages, b),
{
}

} // verus!
