//! The response that a handler fills in, and its encoding. The status is a
//! status code; its reason phrase is looked up when the response is encoded.

use crate::buffer::{buffer_bytes, buffer_from, buffer_slice, frozen_bytes, room, text_bytes};
use crate::errors::ServerError;
use crate::http::response::{cookie_line, cookie_removal, document, header_line, redirection};
use crate::http_11::status::{canonical_reason, decimal, StatusCode};
use crate::http_11::uri::{Uri, UriView};
use bytes::{Bytes, BytesMut};
use vstd::prelude::*;
use vstd::string::*;
use vstd::utf8::encode_utf8;

verus! {

/// Response.
#[derive(Debug, Clone)]
pub struct Response {
    /// HTTP status code.
    pub status_code: StatusCode,
    /// Response body.
    pub body: BytesMut,
    /// Response cookies.
    pub cookies: BytesMut,
    /// Response headers.
    pub headers: BytesMut,
}

/// What a response holds, as mathematical values.
pub ghost struct ResponseView {
    pub status_code: u16,
    pub body: Seq<u8>,
    pub cookies: Seq<u8>,
    pub headers: Seq<u8>,
}

impl View for Response {
    type V = ResponseView;

    open spec fn view(&self) -> ResponseView {
        ResponseView {
            status_code: self.status_code.0,
            body: buffer_bytes(self.body),
            cookies: buffer_bytes(self.cookies),
            headers: buffer_bytes(self.headers),
        }
    }
}

/// The response that a handler starts from: not found, and nothing else.
pub open spec fn fresh() -> ResponseView {
    ResponseView {
        status_code: 404,
        body: Seq::empty(),
        cookies: Seq::empty(),
        headers: Seq::empty(),
    }
}

/// The bytes that `v` is sent as, with `reason` for its reason phrase.
pub open spec fn encoded_with(v: ResponseView, reason: Seq<char>) -> Seq<u8> {
    text_bytes("HTTP/1.1 ") + encode_utf8(decimal(v.status_code as nat)) + text_bytes(" ")
        + encode_utf8(reason) + text_bytes("\r\n") + v.cookies + v.headers + v.body
}

/// The bytes that `v` is sent as, where its status code has a reason phrase.
pub open spec fn encoded(v: ResponseView) -> Option<Seq<u8>> {
    match canonical_reason(v.status_code) {
        Some(reason) => Some(encoded_with(v, reason)),
        None => None,
    }
}

/// The text of the URI `u`: scheme and `://`, authority, path, `?` and query,
/// each part only where `u` has it.
pub open spec fn uri_text(u: UriView) -> Seq<u8> {
    (match u.scheme {
        Some(s) => encode_utf8(s) + text_bytes("://"),
        None => Seq::empty(),
    }) + (match u.authority {
        Some(a) => encode_utf8(a),
        None => Seq::empty(),
    }) + encode_utf8(u.path) + (match u.query {
        Some(q) => text_bytes("?") + encode_utf8(q),
        None => Seq::empty(),
    })
}

impl Response {
    /// The bytes that the response is sent as, with
    /// `reason` for the reason phrase.
    pub fn encode_with(&self, reason: &str) -> (bytes: Bytes)
        ensures
            frozen_bytes(bytes) == encoded_with(self@, reason@),
    {
        let digits = self.status_code.digits();
        let mut bytes = BytesMut::with_capacity(
            room(
                room(15, reason.len()),
                room(room(self.cookies.len(), self.headers.len()), self.body.len()),
            ),
        );
        bytes.extend_from_slice("HTTP/1.1 ".as_bytes());
        bytes.extend_from_slice(digits.as_str().as_bytes());
        bytes.extend_from_slice(" ".as_bytes());
        bytes.extend_from_slice(reason.as_bytes());
        bytes.extend_from_slice("\r\n".as_bytes());
        bytes.extend_from_slice(buffer_slice(&self.cookies));
        bytes.extend_from_slice(buffer_slice(&self.headers));
        bytes.extend_from_slice(buffer_slice(&self.body));
        bytes.freeze()
    }

    /// The bytes that the response is sent as. A status
    /// code without a reason phrase is an error.
    pub fn as_bytes(&self) -> (r: Result<Bytes, ServerError>)
        ensures
            match encoded(self@) {
                Some(bytes) => r matches Ok(b) && frozen_bytes(b) == bytes,
                None => r matches Err(ServerError::UnknownHttpStatus(code)) && code
                    == self@.status_code,
            },
            self@.status_code == 200 ==> (r matches Ok(b) && frozen_bytes(b) == encoded_with(
                self@,
                "OK"@,
            )),
            self@.status_code == 302 ==> (r matches Ok(b) && frozen_bytes(b) == encoded_with(
                self@,
                "Found"@,
            )),
            self@.status_code == 404 ==> (r matches Ok(b) && frozen_bytes(b) == encoded_with(
                self@,
                "Not Found"@,
            )),
    {
        match self.status_code.canonical_reason() {
            Some(reason) => Ok(self.encode_with(reason)),
            None => Err(ServerError::UnknownHttpStatus(self.status_code.as_u16())),
        }
    }

    /// Creating a default instance: not found, and nothing else.
    pub fn new() -> (r: Response)
        ensures
            r@ == fresh(),
    {
        Response {
            status_code: StatusCode::not_found(),
            body: BytesMut::new(),
            cookies: BytesMut::new(),
            headers: BytesMut::new(),
        }
    }

    /// Creating a new instance from a body, with status 200.
    pub fn from_body(data: &[u8]) -> (r: Response)
        ensures
            r@ == (ResponseView { status_code: 200, body: document(data@), ..fresh() }),
    {
        let mut response = Response::new();
        response.set_response(StatusCode::ok(), data);
        response
    }

    /// Creating a new instance from a status and body.
    pub fn from_response(status: StatusCode, data: &[u8]) -> (r: Response)
        ensures
            r@ == (ResponseView { status_code: status.0, body: document(data@), ..fresh() }),
    {
        let mut response = Response::new();
        response.set_response(status, data);
        response
    }

    /// Creating a new instance from a function that is handed the default
    /// instance.
    pub fn from_fn<F: FnOnce(Response) -> Response>(fn_edit: F) -> (r: Response)
        requires
            forall|start: Response| start@ == fresh() ==> call_requires(fn_edit, (start,)),
        ensures
            exists|start: Response| start@ == fresh() && call_ensures(fn_edit, (start,), r),
    {
        fn_edit(Response::new())
    }

    /// Creating a new instance from what reading a file came to.
    pub fn from_file(content: Option<&[u8]>, type_file: &[u8]) -> (r: Response)
        ensures
            r@ == match content {
                Some(data) => ResponseView {
                    status_code: 200,
                    body: data@,
                    headers: header_line(text_bytes("Content-Type"), type_file@),
                    ..fresh()
                },
                None => fresh(),
            },
    {
        let mut response = Response::new();
        response.set_file(content, type_file);
        response
    }

    /// Inserts a status and a document: what the body held before is gone.
    pub fn set_response(&mut self, status: StatusCode, data: &[u8])
        ensures
            final(self)@ == (ResponseView {
                status_code: status.0,
                body: document(data@),
                ..old(self)@
            }),
    {
        self.status_code = status;
        self.body = BytesMut::with_capacity(room(data.len(), 4));
        self.body.extend_from_slice("\r\n".as_bytes());
        self.body.extend_from_slice(data);
    }

    /// Redirecting the client to the url `location`: what the body held
    /// before is gone.
    pub fn set_redirect_str(&mut self, location: &[u8])
        ensures
            final(self)@ == (ResponseView {
                status_code: 302,
                body: redirection(location@),
                ..old(self)@
            }),
    {
        self.status_code = StatusCode::found();
        self.body = BytesMut::with_capacity(room(location.len(), 12));
        self.body.extend_from_slice("Location: ".as_bytes());
        self.body.extend_from_slice(location);
    }

    /// Redirecting the client to the URI `location`: what the body held
    /// before is gone.
    pub fn set_redirect_uri(&mut self, location: Uri)
        ensures
            final(self)@ == (ResponseView {
                status_code: 302,
                body: redirection(uri_text(location@)),
                ..old(self)@
            }),
    {
        self.status_code = StatusCode::found();
        let mut len: usize = room(12, location.path.as_str().len());
        match &location.scheme {
            Some(scheme) => {
                len = room(len, room(scheme.as_str().len(), 3));
            },
            None => {},
        }
        match &location.authority {
            Some(authority) => {
                len = room(len, authority.as_str().len());
            },
            None => {},
        }
        match &location.query {
            Some(query) => {
                len = room(len, room(query.as_str().len(), 1));
            },
            None => {},
        }
        self.body = BytesMut::with_capacity(len);
        self.body.extend_from_slice("Location: ".as_bytes());
        match &location.scheme {
            Some(scheme) => {
                self.body.extend_from_slice(scheme.as_str().as_bytes());
                self.body.extend_from_slice("://".as_bytes());
            },
            None => {},
        }
        match &location.authority {
            Some(authority) => {
                self.body.extend_from_slice(authority.as_str().as_bytes());
            },
            None => {},
        }
        self.body.extend_from_slice(location.path.as_str().as_bytes());
        match &location.query {
            Some(query) => {
                self.body.extend_from_slice("?".as_bytes());
                self.body.extend_from_slice(query.as_str().as_bytes());
            },
            None => {},
        }
        proof {
            assert(buffer_bytes(self.body) =~= redirection(uri_text(location@)));
        }
    }

    /// Takes in what reading a file came to. With the content of the file,
    /// the status is 200, the body is the content, and a `Content-Type`
    /// header of `type_file` is added. With `None`, for a file that could not
    /// be read, the status is 404 and nothing else changes.
    pub fn set_file(&mut self, content: Option<&[u8]>, type_file: &[u8])
        ensures
            final(self)@ == match content {
                Some(data) => ResponseView {
                    status_code: 200,
                    body: data@,
                    headers: old(self)@.headers + header_line(
                        text_bytes("Content-Type"),
                        type_file@,
                    ),
                    ..old(self)@
                },
                None => ResponseView { status_code: 404, ..old(self)@ },
            },
    {
        match content {
            Some(data) => {
                self.status_code = StatusCode::ok();
                self.body = buffer_from(data);
                self.add_header("Content-Type".as_bytes(), type_file);
            },
            None => {
                self.status_code = StatusCode::not_found();
            },
        }
    }

    /// Add a cookie. Directives that are there stay, also one for the same
    /// name.
    pub fn add_cookie(&mut self, name: &[u8], value: &[u8])
        ensures
            final(self)@ == (ResponseView {
                cookies: old(self)@.cookies + cookie_line(name@, value@),
                ..old(self)@
            }),
    {
        self.cookies.extend_from_slice("Set-Cookie: ".as_bytes());
        self.cookies.extend_from_slice(name);
        self.cookies.extend_from_slice("=".as_bytes());
        self.cookies.extend_from_slice(value);
        self.cookies.extend_from_slice("\r\n".as_bytes());
        proof {
            assert(buffer_bytes(self.cookies) =~= old(self)@.cookies + cookie_line(name@, value@));
        }
    }

    /// Delete a cookie. Directives that are there stay, also one for the same
    /// name.
    pub fn delete_cookie(&mut self, name: &[u8])
        ensures
            final(self)@ == (ResponseView {
                cookies: old(self)@.cookies + cookie_removal(name@),
                ..old(self)@
            }),
    {
        self.cookies.extend_from_slice("Set-Cookie: ".as_bytes());
        self.cookies.extend_from_slice(name);
        self.cookies.extend_from_slice("=; Expires=Thu, 01 Jan 1970 00:00:00 GMT\r\n".as_bytes());
        proof {
            assert(buffer_bytes(self.cookies) =~= old(self)@.cookies + cookie_removal(name@));
        }
    }

    /// Add a HTTP header.
    pub fn add_header(&mut self, name: &[u8], value: &[u8])
        ensures
            final(self)@ == (ResponseView {
                headers: old(self)@.headers + header_line(name@, value@),
                ..old(self)@
            }),
    {
        self.headers.extend_from_slice(name);
        self.headers.extend_from_slice(": ".as_bytes());
        self.headers.extend_from_slice(value);
        self.headers.extend_from_slice("\r\n".as_bytes());
        proof {
            assert(buffer_bytes(self.headers) =~= old(self)@.headers + header_line(name@, value@));
        }
    }
}

impl Default for Response {
    fn default() -> (r: Response)
        ensures
            r@ == fresh(),
    {
        Response::new()
    }
}

/// The encoding of a response with status 200, a document `data` and neither
/// cookies nor headers ends with the blank line and then `data`, byte for
/// byte.
pub proof fn lemma_document_is_suffix(data: Seq<u8>)
    ensures
        ({
            let v = ResponseView { status_code: 200, body: document(data), ..fresh() };
            let e = encoded_with(v, "OK"@);
            &&& e.len() >= document(data).len()
            &&& e.skip(e.len() - document(data).len()) == text_bytes("\r\n") + data
            &&& e.skip(e.len() - data.len()) == data
            &&& forall|bytes: Seq<u8>| encoded(v) == Some(bytes) ==> bytes.skip(bytes.len() - data.len()) == data
        }),
{
    let v = ResponseView { status_code: 200, body: document(data), ..fresh() };
    let e = encoded_with(v, "OK"@);
    assert(e.skip(e.len() - document(data).len()) =~= document(data));
    assert(e.skip(e.len() - data.len()) =~= data);
    assert forall|bytes: Seq<u8>| encoded(v) == Some(bytes) implies bytes.skip(
        bytes.len() - data.len(),
    ) == data by {
        let reason = canonical_reason(v.status_code)->0;
        assert(bytes == encoded_with(v, reason));
        assert(bytes.skip(bytes.len() - data.len()) =~= data);
    }
}

/// The encoding of any response ends with its body.
pub proof fn lemma_encoding_ends_with_body(v: ResponseView, reason: Seq<char>)
    ensures
        encoded_with(v, reason).len() >= v.body.len(),
        encoded_with(v, reason).skip(encoded_with(v, reason).len() - v.body.len()) == v.body,
{
    let e = encoded_with(v, reason);
    assert(e.skip(e.len() - v.body.len()) =~= v.body);
}

} // verus!
