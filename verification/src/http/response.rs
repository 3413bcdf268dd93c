//! The response that a handler fills in, and its encoding. The status is
//! kept as the text that follows the protocol tag on the status line.

use crate::buffer::{buffer_bytes, buffer_slice, frozen_bytes, room, text_bytes};
use bytes::{Bytes, BytesMut};
use vstd::prelude::*;
use vstd::string::*;

verus! {

/// Response.
#[derive(Debug, Clone)]
pub struct Response {
    /// HTTP status code with its reason phrase.
    pub status_code: Vec<u8>,
    /// Response body.
    pub body: BytesMut,
    /// Response cookies.
    pub cookies: BytesMut,
    /// Response headers.
    pub headers: BytesMut,
}

/// What a response holds, as sequences of bytes.
pub ghost struct ResponseView {
    pub status_code: Seq<u8>,
    pub body: Seq<u8>,
    pub cookies: Seq<u8>,
    pub headers: Seq<u8>,
}

impl View for Response {
    type V = ResponseView;

    open spec fn view(&self) -> ResponseView {
        ResponseView {
            status_code: self.status_code@,
            body: buffer_bytes(self.body),
            cookies: buffer_bytes(self.cookies),
            headers: buffer_bytes(self.headers),
        }
    }
}

/// The response that a handler starts from: not found, and nothing else.
pub open spec fn fresh() -> ResponseView {
    ResponseView {
        status_code: text_bytes("404 NOT FOUND"),
        body: Seq::empty(),
        cookies: Seq::empty(),
        headers: Seq::empty(),
    }
}

/// The bytes that `v` is sent as.
pub open spec fn encoded(v: ResponseView) -> Seq<u8> {
    text_bytes("HTTP/1.1 ") + v.status_code + text_bytes("\r\n") + v.cookies + v.headers + v.body
}

/// A body that holds the document `data`: the blank line that ends the
/// header block, then `data`.
pub open spec fn document(data: Seq<u8>) -> Seq<u8> {
    text_bytes("\r\n") + data
}

/// A body that sends the client to `location`. It has the shape of a header
/// and no blank line before it.
pub open spec fn redirection(location: Seq<u8>) -> Seq<u8> {
    text_bytes("Location: ") + location
}

/// The directive that sets the cookie `name` to `value`.
pub open spec fn cookie_line(name: Seq<u8>, value: Seq<u8>) -> Seq<u8> {
    text_bytes("Set-Cookie: ") + name + text_bytes("=") + value + text_bytes("\r\n")
}

/// The directive that deletes the cookie `name`: it sets an expiry that has
/// passed.
pub open spec fn cookie_removal(name: Seq<u8>) -> Seq<u8> {
    text_bytes("Set-Cookie: ") + name + text_bytes("=; Expires=Thu, 01 Jan 1970 00:00:00 GMT\r\n")
}

/// The header line that gives `name` the value `value`.
pub open spec fn header_line(name: Seq<u8>, value: Seq<u8>) -> Seq<u8> {
    name + text_bytes(": ") + value + text_bytes("\r\n")
}

/// `v` with `data` behind its body.
pub open spec fn with_more_body(v: ResponseView, data: Seq<u8>) -> ResponseView {
    ResponseView { body: v.body + data, ..v }
}

/// `v` made the start of an HTML page: status 200, and a body of the blank
/// line and the opening tags.
pub open spec fn page_opened(v: ResponseView) -> ResponseView {
    ResponseView {
        status_code: text_bytes("200 OK"),
        body: document(Seq::empty()) + text_bytes("<html><head>"),
        ..v
    }
}

impl Response {
    /// The bytes that the response is sent as.
    pub fn as_bytes(&self) -> (bytes: Bytes)
        ensures
            frozen_bytes(bytes) == encoded(self@),
    {
        let mut bytes = BytesMut::with_capacity(
            room(
                room(11, self.status_code.len()),
                room(room(self.cookies.len(), self.headers.len()), self.body.len()),
            ),
        );
        bytes.extend_from_slice("HTTP/1.1 ".as_bytes());
        bytes.extend_from_slice(self.status_code.as_slice());
        bytes.extend_from_slice("\r\n".as_bytes());
        bytes.extend_from_slice(buffer_slice(&self.cookies));
        bytes.extend_from_slice(buffer_slice(&self.headers));
        bytes.extend_from_slice(buffer_slice(&self.body));
        bytes.freeze()
    }

    /// Creating a default instance: not found, and nothing else.
    pub fn new() -> (r: Response)
        ensures
            r@ == fresh(),
    {
        Response {
            status_code: "404 NOT FOUND".as_bytes_vec(),
            body: BytesMut::new(),
            cookies: BytesMut::new(),
            headers: BytesMut::new(),
        }
    }

    /// Creating a new instance from a status and body.
    pub fn from_response(status: &[u8], data: &[u8]) -> (r: Response)
        ensures
            r@ == (ResponseView { status_code: status@, body: document(data@), ..fresh() }),
    {
        let mut response = Response::new();
        response.set_response(status, data);
        response
    }

    /// Creating a new instance from a function that is handed the default
    /// instance.
    pub fn from_fn<F: FnOnce(Response) -> Response>(fn_edit: F) -> (r: Response)
        requires
            forall|start: Response| start@ == fresh() ==> call_requires(fn_edit, (start,)),
        ensures
            exists|start: Response| start@ == fresh() && call_ensures(fn_edit, (start,), r),
    {
        fn_edit(Response::new())
    }

    /// Creating a new instance that holds an HTML page: `head` fills the
    /// head, `body` the body.
    pub fn from_html<Q: FnOnce(Response) -> Response, W: FnOnce(Response) -> Response>(
        head: Q,
        body: W,
    ) -> (r: Response)
        requires
            forall|x: Response| call_requires(head, (x,)),
            forall|x: Response| call_requires(body, (x,)),
        ensures
            exists|a: Response, b: Response, c: Response, d: Response|
                a@ == page_opened(fresh()) && call_ensures(head, (a,), b) && c@ == with_more_body(
                    b@,
                    text_bytes("</head><body>"),
                ) && call_ensures(body, (c,), d) && r@ == with_more_body(
                    d@,
                    text_bytes("</body></html>"),
                ),
    {
        let mut response = Response::new();
        response.set_html(head, body);
        response
    }

    /// Inserts a status and a document: what the body held before is gone.
    pub fn set_response(&mut self, status: &[u8], data: &[u8])
        ensures
            final(self)@ == (ResponseView {
                status_code: status@,
                body: document(data@),
                ..old(self)@
            }),
    {
        self.status_code = vstd::slice::slice_to_vec(status);
        self.body = BytesMut::with_capacity(room(data.len(), 4));
        self.body.extend_from_slice("\r\n".as_bytes());
        self.body.extend_from_slice(data);
    }

    /// Redirecting the client to a specific url: what the body held before
    /// is gone.
    pub fn set_redirect(&mut self, location: &[u8])
        ensures
            final(self)@ == (ResponseView {
                status_code: text_bytes("302 FOUND"),
                body: redirection(location@),
                ..old(self)@
            }),
    {
        self.status_code = "302 FOUND".as_bytes_vec();
        self.body = BytesMut::with_capacity(room(location.len(), 12));
        self.body.extend_from_slice("Location: ".as_bytes());
        self.body.extend_from_slice(location);
    }

    /// Takes in what reading a file came to. With the content of the file,
    /// the status is 200, the body is the content, and a `Content-Type`
    /// header of `type_file` is added. With `None`, for a file that could not
    /// be read, the status is 404 and nothing else changes.
    pub fn set_file(&mut self, content: Option<&[u8]>, type_file: &[u8])
        ensures
            final(self)@ == match content {
                Some(data) => ResponseView {
                    status_code: text_bytes("200 OK"),
                    body: data@,
                    headers: old(self)@.headers + header_line(
                        text_bytes("Content-Type"),
                        type_file@,
                    ),
                    ..old(self)@
                },
                None => ResponseView { status_code: text_bytes("404 NOT FOUND"), ..old(self)@ },
            },
    {
        match content {
            Some(data) => {
                self.status_code = "200 OK".as_bytes_vec();
                self.body = crate::buffer::buffer_from(data);
                self.add_header("Content-Type".as_bytes(), type_file);
            },
            None => {
                self.status_code = "404 NOT FOUND".as_bytes_vec();
            },
        }
    }

    /// Creating a new instance from what reading a file came to.
    pub fn from_file(content: Option<&[u8]>, type_file: &[u8]) -> (r: Response)
        ensures
            r@ == match content {
                Some(data) => ResponseView {
                    status_code: text_bytes("200 OK"),
                    body: data@,
                    headers: header_line(text_bytes("Content-Type"), type_file@),
                    ..fresh()
                },
                None => fresh(),
            },
    {
        let mut response = Response::new();
        response.set_file(content, type_file);
        response
    }

    /// Add a cookie. Directives that are there stay, also one for the same
    /// name.
    pub fn add_cookie(&mut self, name: &[u8], value: &[u8])
        ensures
            final(self)@ == (ResponseView {
                cookies: old(self)@.cookies + cookie_line(name@, value@),
                ..old(self)@
            }),
    {
        self.cookies.extend_from_slice("Set-Cookie: ".as_bytes());
        self.cookies.extend_from_slice(name);
        self.cookies.extend_from_slice("=".as_bytes());
        self.cookies.extend_from_slice(value);
        self.cookies.extend_from_slice("\r\n".as_bytes());
        proof {
            assert(buffer_bytes(self.cookies) =~= old(self)@.cookies + cookie_line(name@, value@));
        }
    }

    /// Delete a cookie. Directives that are there stay, also one for the same
    /// name.
    pub fn delete_cookie(&mut self, name: &[u8])
        ensures
            final(self)@ == (ResponseView {
                cookies: old(self)@.cookies + cookie_removal(name@),
                ..old(self)@
            }),
    {
        self.cookies.extend_from_slice("Set-Cookie: ".as_bytes());
        self.cookies.extend_from_slice(name);
        self.cookies.extend_from_slice("=; Expires=Thu, 01 Jan 1970 00:00:00 GMT\r\n".as_bytes());
        proof {
            assert(buffer_bytes(self.cookies) =~= old(self)@.cookies + cookie_removal(name@));
        }
    }

    /// Add a HTTP header.
    pub fn add_header(&mut self, name: &[u8], value: &[u8])
        ensures
            final(self)@ == (ResponseView {
                headers: old(self)@.headers + header_line(name@, value@),
                ..old(self)@
            }),
    {
        self.headers.extend_from_slice(name);
        self.headers.extend_from_slice(": ".as_bytes());
        self.headers.extend_from_slice(value);
        self.headers.extend_from_slice("\r\n".as_bytes());
        proof {
            assert(buffer_bytes(self.headers) =~= old(self)@.headers + header_line(name@, value@));
        }
    }

    /// Constructs an HTML page: `head` fills the head, `body` the body. Each
    /// is handed the response as it stands and gives back what it made of it.
    pub fn set_html<Q: FnOnce(Response) -> Response, W: FnOnce(Response) -> Response>(
        &mut self,
        head: Q,
        body: W,
    )
        requires
            forall|x: Response| call_requires(head, (x,)),
            forall|x: Response| call_requires(body, (x,)),
        ensures
            exists|a: Response, b: Response, c: Response, d: Response|
                a@ == page_opened(old(self)@) && call_ensures(head, (a,), b) && c@
                    == with_more_body(b@, text_bytes("</head><body>")) && call_ensures(
                    body,
                    (c,),
                    d,
                ) && final(self)@ == with_more_body(d@, text_bytes("</body></html>")),
    {
        let mut a = Response::new();
        std::mem::swap(self, &mut a);
        let empty: [u8; 0] = [];
        a.set_response("200 OK".as_bytes(), empty.as_slice());
        a.echo("<html><head>".as_bytes());
        proof {
            assert(a@.body =~= document(Seq::empty()) + text_bytes("<html><head>"));
        }
        let b = head(a);
        let mut c = b;
        c.echo("</head><body>".as_bytes());
        let d = body(c);
        let mut e = d;
        e.echo("</body></html>".as_bytes());
        *self = e;
    }

    /// Adding `data` to the end of the body.
    pub fn echo(&mut self, data: &[u8])
        ensures
            final(self)@ == with_more_body(old(self)@, data@),
    {
        self.body.extend_from_slice(data);
    }
}

impl Default for Response {
    fn default() -> (r: Response)
        ensures
            r@ == fresh(),
    {
        Response::new()
    }
}

/// Each cookie directive goes behind those that are there: setting a cookie
/// twice and deleting it leaves three directives, in that order.
pub proof fn lemma_cookie_directives_accumulate(
    start: Seq<u8>,
    name: Seq<u8>,
    value: Seq<u8>,
)
    ensures
        ((start + cookie_line(name, value)) + cookie_line(name, value)) + cookie_removal(name)
            == start + (cookie_line(name, value) + cookie_line(name, value) + cookie_removal(
            name,
        )),
{
    assert(((start + cookie_line(name, value)) + cookie_line(name, value)) + cookie_removal(name)
        =~= start + (cookie_line(name, value) + cookie_line(name, value) + cookie_removal(name)));
}

/// The encoding of a response ends with its body; for a response that holds
/// a document `data`, it ends with the blank line and `data`.
pub proof fn lemma_encoding_ends_with_body(v: ResponseView)
    ensures
        encoded(v).len() >= v.body.len(),
        encoded(v).skip(encoded(v).len() - v.body.len()) == v.body,
{
    let e = encoded(v);
    assert(e.skip(e.len() - v.body.len()) =~= v.body);
}

} // verus!
