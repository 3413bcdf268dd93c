//! The HTTP/1.1 server: its table of fallback pages, the choice of what is
//! written for a response, and the stages of one connection.

use crate::buffer::frozen_bytes;
use crate::errors::ServerError;
use crate::http_11::request::Request;
use crate::http_11::response::{encoded, Response};
use crate::http_11::status::StatusCode;
use bytes::Bytes;
use vstd::prelude::*;

verus! {

/// `dashmap::DashMap`, a hash map that can be read from many threads.
#[verifier::external_type_specification]
#[verifier::external_body]
#[verifier::reject_recursive_types(K)]
#[verifier::reject_recursive_types(V)]
#[verifier::reject_recursive_types(S)]
pub struct ExDashMap<K, V, S>(dashmap::DashMap<K, V, S>);

/// What a `DashMap` from status codes to pages holds.
pub uninterp spec fn pages_in(m: dashmap::DashMap<u16, Bytes>) -> Map<u16, Seq<u8>>;

/// `DashMap::new` returns a map that holds nothing.
#[verifier::external_body]
fn pages_new() -> (table: dashmap::DashMap<u16, Bytes>)
    ensures
        pages_in(table) =~= Map::empty(),
{
    dashmap::DashMap::new()
}

/// `DashMap::insert` stores the value under the key, in place of a value
/// that was stored under it.
#[verifier::external_body]
fn pages_insert(m: &mut dashmap::DashMap<u16, Bytes>, code: u16, page: Bytes)
    ensures
        pages_in(*final(m)) == pages_in(*old(m)).insert(code, frozen_bytes(page)),
{
    m.insert(code, page);
}

/// `DashMap::get` finds the value that is stored under the key; the page is
/// handed out as a clone, which shares its bytes.
#[verifier::external_body]
fn pages_get(m: &dashmap::DashMap<u16, Bytes>, code: u16) -> (r: Option<Bytes>)
    ensures
        match r {
            Some(page) => pages_in(*m).dom().contains(code) && pages_in(*m)[code] == frozen_bytes(
                page,
            ),
            None => !pages_in(*m).dom().contains(code),
        },
{
    m.get(&code).map(|page| page.value().clone())
}

/// The table of fallback pages: from a status code to the bytes that are
/// written for every response of that status. It is filled before serving
/// begins and only read afterwards.
pub struct FallbackPages {
    pages: dashmap::DashMap<u16, Bytes>,
}

impl View for FallbackPages {
    type V = Map<u16, Seq<u8>>;

    closed spec fn view(&self) -> Map<u16, Seq<u8>> {
        pages_in(self.pages)
    }
}

impl FallbackPages {
    /// A table without pages.
    pub fn new() -> (t: FallbackPages)
        ensures
            t@ == Map::<u16, Seq<u8>>::empty(),
    {
        FallbackPages { pages: pages_new() }
    }

    /// Registers the bytes `page` for `status`, in place of what was
    /// registered for it.
    pub fn register_fallback(&mut self, status: StatusCode, page: Bytes)
        ensures
            final(self)@ == old(self)@.insert(status.0, frozen_bytes(page)),
    {
        pages_insert(&mut self.pages, status.0, page);
    }

    /// Registers the encoding of `page` for `status`. Where `page` cannot be
    /// encoded, the table stays as it is and the error is handed back.
    pub fn set_def_page(&mut self, status: StatusCode, page: &Response) -> (r: Result<
        (),
        ServerError,
    >)
        ensures
            match encoded(page@) {
                Some(bytes) => r is Ok && final(self)@ == old(self)@.insert(status.0, bytes),
                None => (r matches Err(ServerError::UnknownHttpStatus(code)) && code
                    == page@.status_code) && final(self)@ == old(self)@,
            },
    {
        match page.as_bytes() {
            Ok(bytes) => {
                self.register_fallback(status, bytes);
                Ok(())
            },
            Err(e) => Err(e),
        }
    }

    /// The page that is registered for `status`, where there is one.
    pub fn lookup(&self, status: StatusCode) -> (r: Option<Bytes>)
        ensures
            match r {
                Some(page) => self@.dom().contains(status.0) && self@[status.0] == frozen_bytes(
                    page,
                ),
                None => !self@.dom().contains(status.0),
            },
    {
        pages_get(&self.pages, status.0)
    }
}

/// The bytes that are written for the response `v` under the table `pages`:
/// the page that is registered for its status, whatever else the response
/// holds, else its encoding.
pub open spec fn resolved(pages: Map<u16, Seq<u8>>, v: crate::http_11::response::ResponseView)
    -> Option<Seq<u8>> {
    if pages.dom().contains(v.status_code) {
        Some(pages[v.status_code])
    } else {
        encoded(v)
    }
}

/// Where a connection stands.
#[derive(Debug, Clone, Copy, PartialEq, Eq, Structural)]
pub enum Stage {
    /// The connection was accepted; the admission check is due.
    Accepted,
    /// The request is being decoded.
    Decoding,
    /// The handler has the request.
    Handling,
    /// The bytes for the handler's response are being chosen. A connection
    /// passes through this stage within the step that takes in the response.
    Resolving,
    /// The bytes are being written.
    Writing,
    /// The connection has ended.
    Closed,
    /// The admission check failed: nothing was read.
    Rejected,
}

/// What happened on a connection.
#[derive(Debug)]
pub enum Event {
    /// The admission check passed or failed.
    Checked(bool),
    /// The decoder came to a request or to an error.
    Decoded(Result<Request, ServerError>),
    /// The handler gave its response.
    Handled(Response),
    /// The bytes were written and flushed.
    Written,
    /// Writing failed.
    WriteFailed(std::io::Error),
    /// Flushing failed.
    FlushFailed(std::io::Error),
}

/// What is to be done next on a connection.
#[derive(Debug)]
pub enum Action {
    /// Decode a request from the stream.
    Decode,
    /// Hand the request to the handler.
    Handle(Request),
    /// Write these bytes and flush.
    Write(Bytes),
    /// Drop the connection; the job ends with this result.
    Finish(Result<(), ServerError>),
}

/// Whether `event` is one that can happen at `stage`.
pub open spec fn expected(stage: Stage, event: Event) -> bool {
    match stage {
        Stage::Accepted => event is Checked,
        Stage::Decoding => event is Decoded,
        Stage::Handling => event is Handled,
        Stage::Writing => event is Written || event is WriteFailed || event is FlushFailed,
        _ => false,
    }
}

/// The stage that follows `stage` on `event` under the table `pages`.
pub open spec fn next_stage(stage: Stage, event: Event, pages: Map<u16, Seq<u8>>) -> Stage {
    match (stage, event) {
        (Stage::Accepted, Event::Checked(passed)) => if passed {
            Stage::Decoding
        } else {
            Stage::Rejected
        },
        (Stage::Decoding, Event::Decoded(Ok(_))) => Stage::Handling,
        (Stage::Handling, Event::Handled(response)) => if resolved(pages, response@) is Some {
            Stage::Writing
        } else {
            Stage::Closed
        },
        _ => Stage::Closed,
    }
}

/// Server with HTTP protocol.
pub struct HttpServer;

impl HttpServer {
    /// The bytes that are written for `response`: the page that is registered
    /// for its status, whatever else the response holds, else its encoding.
    pub fn resolve(pages: &FallbackPages, response: &Response) -> (r: Result<Bytes, ServerError>)
        ensures
            match resolved(pages@, response@) {
                Some(bytes) => r matches Ok(b) && frozen_bytes(b) == bytes,
                None => r matches Err(ServerError::UnknownHttpStatus(code)) && code
                    == response@.status_code,
            },
    {
        match pages.lookup(response.status_code) {
            Some(page) => Ok(page),
            None => response.as_bytes(),
        }
    }

    /// Whether `event` is one that can happen at `stage`.
    pub fn fits(stage: Stage, event: &Event) -> (b: bool)
        ensures
            b == expected(stage, *event),
    {
        match (stage, event) {
            (Stage::Accepted, Event::Checked(_)) => true,
            (Stage::Decoding, Event::Decoded(_)) => true,
            (Stage::Handling, Event::Handled(_)) => true,
            (Stage::Writing, Event::Written) => true,
            (Stage::Writing, Event::WriteFailed(_)) => true,
            (Stage::Writing, Event::FlushFailed(_)) => true,
            (_, _) => false,
        }
    }

    /// One step of a connection: from where it stands and what happened to
    /// where it stands next and what is to be done.
    pub fn handle_connection(stage: Stage, event: Event, pages: &FallbackPages) -> (r: (
        Stage,
        Action,
    ))
        requires
            expected(stage, event),
        ensures
            r.0 == next_stage(stage, event, pages@),
            match (stage, event) {
                (Stage::Accepted, Event::Checked(passed)) => if passed {
                    r.1 is Decode
                } else {
                    r.1 matches Action::Finish(Err(ServerError::VerificationFailed))
                },
                (Stage::Decoding, Event::Decoded(Ok(request))) => r.1 matches Action::Handle(q)
                    && q == request,
                (Stage::Decoding, Event::Decoded(Err(error))) => r.1 matches Action::Finish(
                    Err(e),
                ) && e == error,
                (Stage::Handling, Event::Handled(response)) => match resolved(
                    pages@,
                    response@,
                ) {
                    Some(bytes) => r.1 matches Action::Write(b) && frozen_bytes(b) == bytes,
                    None => r.1 matches Action::Finish(Err(ServerError::UnknownHttpStatus(code)))
                        && code == response@.status_code,
                },
                (Stage::Writing, Event::Written) => r.1 matches Action::Finish(Ok(_)),
                (Stage::Writing, Event::WriteFailed(error)) => r.1 matches Action::Finish(
                    Err(ServerError::Write(e)),
                ) && e == error,
                (Stage::Writing, Event::FlushFailed(error)) => r.1 matches Action::Finish(
                    Err(ServerError::Flush(e)),
                ) && e == error,
                _ => true,
            },
    {
        match (stage, event) {
            (Stage::Accepted, Event::Checked(passed)) => {
                if passed {
                    (Stage::Decoding, Action::Decode)
                } else {
                    (Stage::Rejected, Action::Finish(Err(ServerError::VerificationFailed)))
                }
            },
            (Stage::Decoding, Event::Decoded(Ok(request))) => (
                Stage::Handling,
                Action::Handle(request),
            ),
            (Stage::Decoding, Event::Decoded(Err(error))) => (
                Stage::Closed,
                Action::Finish(Err(error)),
            ),
            (Stage::Handling, Event::Handled(response)) => {
                match HttpServer::resolve(pages, &response) {
                    Ok(bytes) => (Stage::Writing, Action::Write(bytes)),
                    Err(error) => (Stage::Closed, Action::Finish(Err(error))),
                }
            },
            (Stage::Writing, Event::Written) => (Stage::Closed, Action::Finish(Ok(()))),
            (Stage::Writing, Event::WriteFailed(error)) => (
                Stage::Closed,
                Action::Finish(Err(ServerError::Write(error))),
            ),
            (Stage::Writing, Event::FlushFailed(error)) => (
                Stage::Closed,
                Action::Finish(Err(ServerError::Flush(error))),
            ),
            (_, _) => (Stage::Closed, Action::Finish(Ok(()))),
        }
    }
}

/// For a status that has a registered page, what is written is that page,
/// whatever the handler put into the response.
pub proof fn lemma_fallback_page_wins(
    pages: Map<u16, Seq<u8>>,
    a: crate::http_11::response::ResponseView,
    b: crate::http_11::response::ResponseView,
)
    requires
        pages.dom().contains(a.status_code),
        a.status_code == b.status_code,
    ensures
        resolved(pages, a) == Some(pages[a.status_code]),
        resolved(pages, a) == resolved(pages, b),
{
}

} // verus!
