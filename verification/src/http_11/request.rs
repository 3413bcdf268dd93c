//! The request decoder of the HTTP/1.1 server. Method, URL, header names and
//! header values are held to what the `http` crate accepts; of the methods
//! that it accepts, nine are known.

use crate::errors::ServerError;
use crate::http::request::{
    body_read, content_length, ends_headers, line_end, line_end_from, pairs_of, HttpMethod,
};
use crate::http_11::header::{
    check_header_name, check_header_value, is_header_name, is_header_value, is_readable, readable,
};
use crate::http_11::method::{is_method, is_method_char, Method};
use crate::http_11::uri::{uri_parts, Uri, UriView};
use crate::string_map::StringMap;
use crate::text::{
    chars_of, parse_usize_str, piece, split_on_chars, split_once, split_once_str,
    split_whitespace, split_whitespace_str, trim, trim_end_str, trim_str, views,
};
use vstd::prelude::*;
use vstd::string::*;
use vstd::utf8::encode_utf8;

verus! {

/// A parsed HTTP request.
#[derive(Debug, Clone)]
pub struct Request {
    /// HTTP request method (GET, POST, etc.).
    pub method: Method,
    /// Requested URL.
    pub url: Uri,
    /// Optional `Host` header.
    pub host: Option<String>,
    /// Request cookies as key-value pairs.
    pub cookies: StringMap,
    /// HTTP request headers as key-value pairs, under their names as written.
    pub headers: StringMap,
    /// Request body.
    pub body: Vec<u8>,
}

/// What a request holds, as mathematical values.
pub ghost struct RequestView {
    pub method: Seq<char>,
    pub url: UriView,
    pub host: Option<Seq<char>>,
    pub cookies: Map<Seq<char>, Seq<char>>,
    pub headers: Map<Seq<char>, Seq<char>>,
    pub body: Seq<u8>,
}

impl View for Request {
    type V = RequestView;

    open spec fn view(&self) -> RequestView {
        RequestView {
            method: self.method@,
            url: self.url@,
            host: match self.host {
                Some(h) => Some(h@),
                None => None,
            },
            cookies: self.cookies@,
            headers: self.headers@,
            body: self.body@,
        }
    }
}

/// Why there is no request.
pub ghost enum Fault {
    EmptyRequest,
    BrokenFirstLine,
    InvalidMethod,
    UnknownMethod(Seq<char>),
    InvalidUrl,
    InvalidHeaderName,
    InvalidHeaderValue,
}

/// Whether the error `e` tells of the fault `f`.
pub open spec fn tells(e: ServerError, f: Fault) -> bool {
    match f {
        Fault::EmptyRequest => e is EmptyRequest,
        Fault::BrokenFirstLine => e is BrokenFirstLine,
        Fault::InvalidMethod => e is InvalidMethod,
        Fault::UnknownMethod(token) => e matches ServerError::UnknownMethod(s) && s@ == token,
        Fault::InvalidUrl => e is InvalidUrl,
        Fault::InvalidHeaderName => e is InvalidHeaderName,
        Fault::InvalidHeaderValue => e is InvalidHeaderValue,
    }
}

/// Whether the result `r` is what `d` describes.
pub open spec fn agrees(r: Result<Request, ServerError>, d: Result<RequestView, Fault>) -> bool {
    match d {
        Ok(v) => r matches Ok(request) && request@ == v,
        Err(f) => r matches Err(e) && tells(e, f),
    }
}

/// Whether `token` is one of the nine known methods.
pub open spec fn is_known_method(token: Seq<char>) -> bool {
    HttpMethod::of_token(token) is Some
}

/// What the request line `line` decodes to. The method is looked at first:
/// whether it is written as a method is, then whether it is known.
pub open spec fn request_line(line: Seq<char>) -> Result<RequestView, Fault> {
    let tokens = split_whitespace(line);
    if line.len() == 0 {
        Err(Fault::EmptyRequest)
    } else if tokens.len() != 3 {
        Err(Fault::BrokenFirstLine)
    } else if !is_method(tokens[0]) {
        Err(Fault::InvalidMethod)
    } else if !is_known_method(tokens[0]) {
        Err(Fault::UnknownMethod(tokens[0]))
    } else {
        match uri_parts(tokens[1]) {
            Some(url) => Ok(
                RequestView {
                    method: tokens[0],
                    url,
                    host: None,
                    cookies: Map::empty(),
                    headers: Map::empty(),
                    body: Seq::empty(),
                },
            ),
            None => Err(Fault::InvalidUrl),
        }
    }
}

/// `headers` after the header line `line`. What stands before the first colon
/// names the header, what stands behind it is its value, both trimmed; the
/// name is looked at first, and the value is stored under the name as it is
/// written. A line without a colon changes nothing.
pub open spec fn with_header(headers: Map<Seq<char>, Seq<char>>, line: Seq<char>) -> Result<
    Map<Seq<char>, Seq<char>>,
    Fault,
> {
    match split_once(trim(line), ':') {
        Some((name, value)) => if !is_header_name(trim(name)) {
            Err(Fault::InvalidHeaderName)
        } else if !is_header_value(trim(value)) {
            Err(Fault::InvalidHeaderValue)
        } else {
            Ok(headers.insert(trim(name), trim(value)))
        },
        None => Ok(headers),
    }
}

/// The header map after the header block that `s` begins with, and what
/// follows the block in `s`.
pub open spec fn header_block(s: Seq<char>, headers: Map<Seq<char>, Seq<char>>) -> Result<
    (Map<Seq<char>, Seq<char>>, Seq<char>),
    Fault,
>
    decreases s.len(),
{
    let e = line_end(s);
    let line = s.take(e);
    if e <= 0 || ends_headers(line) {
        Ok((headers, s.skip(e)))
    } else {
        match with_header(headers, line) {
            Ok(next) => header_block(s.skip(e), next),
            Err(f) => Err(f),
        }
    }
}

/// `v` with the body that was read, if any, and with the `Cookie` and `Host`
/// headers moved out of the header map into their own fields. A `Cookie`
/// header that cannot be read as text leaves no cookies.
pub open spec fn completed(v: RequestView, body: Option<Seq<u8>>) -> RequestView {
    let without_cookie = v.headers.remove("Cookie"@);
    RequestView {
        method: v.method,
        url: v.url,
        host: if without_cookie.dom().contains("Host"@) {
            Some(without_cookie["Host"@])
        } else {
            v.host
        },
        cookies: if v.headers.dom().contains("Cookie"@) && is_readable(v.headers["Cookie"@]) {
            pairs_of(v.headers["Cookie"@], "; "@)
        } else {
            v.cookies
        },
        headers: without_cookie.remove("Host"@),
        body: match body {
            Some(b) => b,
            None => v.body,
        },
    }
}

/// What the text `input` of one connection decodes to.
pub open spec fn decode(input: Seq<char>) -> Result<RequestView, Fault> {
    let e = line_end(input);
    match request_line(input.take(e)) {
        Ok(v) => match header_block(input.skip(e), v.headers) {
            Ok((headers, rest)) => Ok(
                completed(RequestView { headers, ..v }, body_read(headers, encode_utf8(rest))),
            ),
            Err(f) => Err(f),
        },
        Err(f) => Err(f),
    }
}

impl Request {
    /// The `key=value` pairs of `data`, whose parts `char_split` separates.
    /// A part without `=` is passed over; key and value are trimmed; of two
    /// parts with one key the later one stays.
    pub fn parse_query_string(data: &str, char_split: char) -> (m: StringMap)
        ensures
            m@ == pairs_of(data@, seq![char_split]),
    {
        let mut sep: Vec<char> = Vec::new();
        sep.push(char_split);
        proof {
            assert(sep@ =~= seq![char_split]);
        }
        let parts = split_on_chars(data, &sep);
        crate::http::request::Request::pairs_from(&parts)
    }

    /// The request that the request line `line` opens. An empty `line` stands
    /// for a stream that ended before it sent anything.
    pub fn from_request_line(line: &str) -> (r: Result<Request, ServerError>)
        ensures
            agrees(r, request_line(line@)),
    {
        if line.is_empty() {
            return Err(ServerError::EmptyRequest);
        }
        let parts = split_whitespace_str(line);
        if parts.len() != 3 {
            return Err(ServerError::BrokenFirstLine);
        }
        proof {
            assert(views(parts@)[0] == parts@[0]@);
            assert(views(parts@)[1] == parts@[1]@);
        }
        let method = match Method::parse(parts[0].as_str()) {
            Ok(m) => m,
            Err(e) => {
                return Err(ServerError::InvalidMethod(e));
            },
        };
        match HttpMethod::from_str(parts[0].as_str()) {
            Ok(_) => {},
            Err(_) => {
                return Err(ServerError::UnknownMethod(String::from_str(parts[0].as_str())));
            },
        }
        let url = match Uri::parse(parts[1].as_str()) {
            Ok(u) => u,
            Err(e) => {
                return Err(ServerError::InvalidUrl(e));
            },
        };
        Ok(
            Request {
                method,
                url,
                host: None,
                cookies: StringMap::new(),
                headers: StringMap::new(),
                body: Vec::new(),
            },
        )
    }

    /// Takes in one line of the header block. Returns whether the block goes
    /// on: `false` at a blank line and at the end of the stream.
    pub fn read_header_line(&mut self, line: &str) -> (r: Result<bool, ServerError>)
        ensures
            ends_headers(line@) ==> (r matches Ok(more) && !more && final(self)@ == old(self)@),
            !ends_headers(line@) ==> match with_header(old(self)@.headers, line@) {
                Ok(headers) => (r matches Ok(more) && more) && final(self)@ == (RequestView {
                    headers,
                    ..old(self)@
                }),
                Err(f) => (r matches Err(e) && tells(e, f)) && final(self)@ == old(self)@,
            },
    {
        if trim_end_str(line).is_empty() {
            return Ok(false);
        }
        match split_once_str(trim_str(line), ':') {
            Some((name, value)) => {
                let name = trim_str(name);
                match check_header_name(name) {
                    Ok(_) => {},
                    Err(e) => {
                        return Err(ServerError::InvalidHeaderName(e));
                    },
                }
                let value = trim_str(value);
                match check_header_value(value) {
                    Ok(_) => {},
                    Err(e) => {
                        return Err(ServerError::InvalidHeaderValue(e));
                    },
                }
                self.headers.insert(String::from_str(name), String::from_str(value));
            },
            None => {},
        }
        Ok(true)
    }

    /// The length of the body that the headers announce.
    pub fn body_length(&self) -> (n: Option<usize>)
        ensures
            n == content_length(self@.headers),
    {
        match self.headers.get("Content-Length") {
            Some(value) => parse_usize_str(value.as_str()),
            None => None,
        }
    }

    /// Ends the decoding: stores the body that was read, if one was, and moves
    /// the `Cookie` and `Host` headers into their own fields.
    pub fn complete(self, body: Option<Vec<u8>>) -> (r: Request)
        ensures
            r@ == completed(
                self@,
                match body {
                    Some(b) => Some(b@),
                    None => None,
                },
            ),
    {
        let mut request = self;
        match body {
            Some(b) => {
                request.body = b;
            },
            None => {},
        }
        match request.headers.remove("Cookie") {
            Some(cookies) => {
                if readable(cookies.as_str()) {
                    request.cookies = crate::http::request::Request::get_data(
                        cookies.as_str(),
                        "; ",
                    );
                }
            },
            None => {},
        }
        match request.headers.remove("Host") {
            Some(host) => {
                request.host = Some(host);
            },
            None => {},
        }
        request
    }
}

/// The next thing that a decoder asks of the connection.
#[derive(Debug)]
pub enum Action {
    /// Read one line, up to and with its line feed, and hand it to `on_line`;
    /// hand over an empty line where the stream has ended.
    ReadLine,
    /// Read exactly this many bytes and hand them to `on_body`, or `None`
    /// where they cannot be read.
    ReadBody(usize),
    /// The request is decoded.
    Finished(Request),
    /// There is no request: drop the connection.
    Failed(ServerError),
}

/// The decoder of one connection, between two reads.
#[derive(Debug)]
pub enum Decoder {
    /// Nothing was read yet.
    RequestLine,
    /// The request line was read; header lines follow.
    Headers(Request),
    /// The header block has ended; a body of this length follows.
    Body(Request, usize),
    /// Decoding has ended.
    Closed,
}

impl Decoder {
    /// A decoder that waits for the request line.
    pub fn new() -> (d: Decoder)
        ensures
            d is RequestLine,
    {
        Decoder::RequestLine
    }

    /// Whether the decoder waits for a line.
    pub open spec fn reads_line(self) -> bool {
        self is RequestLine || self is Headers
    }

    /// Whether the decoder waits for a line.
    pub fn waits_for_line(&self) -> (b: bool)
        ensures
            b == self.reads_line(),
    {
        match self {
            Decoder::RequestLine => true,
            Decoder::Headers(_) => true,
            _ => false,
        }
    }

    /// Whether the decoder waits for a body.
    pub fn waits_for_body(&self) -> (b: bool)
        ensures
            b == (*self is Body),
    {
        match self {
            Decoder::Body(_, _) => true,
            _ => false,
        }
    }

    /// Takes in the line that was read.
    pub fn on_line(self, line: &str) -> (r: (Decoder, Action))
        requires
            self.reads_line(),
        ensures
            self is RequestLine ==> match request_line(line@) {
                Ok(v) => (r.0 matches Decoder::Headers(q) && q@ == v) && r.1 is ReadLine,
                Err(f) => r.0 is Closed && (r.1 matches Action::Failed(e) && tells(e, f)),
            },
            self matches Decoder::Headers(q) ==> if !ends_headers(line@) {
                match with_header(q@.headers, line@) {
                    Ok(headers) => (r.0 matches Decoder::Headers(q2) && q2@ == (RequestView {
                        headers,
                        ..q@
                    })) && r.1 is ReadLine,
                    Err(f) => r.0 is Closed && (r.1 matches Action::Failed(e) && tells(e, f)),
                }
            } else {
                match content_length(q@.headers) {
                    Some(n) => (r.0 matches Decoder::Body(q2, m) && q2@ == q@ && m == n) && (
                    r.1 matches Action::ReadBody(m) && m == n),
                    None => r.0 is Closed && (r.1 matches Action::Finished(f) && f@ == completed(
                        q@,
                        None,
                    )),
                }
            },
    {
        match self {
            Decoder::RequestLine => match Request::from_request_line(line) {
                Ok(request) => (Decoder::Headers(request), Action::ReadLine),
                Err(e) => (Decoder::Closed, Action::Failed(e)),
            },
            Decoder::Headers(request) => {
                let mut request = request;
                match request.read_header_line(line) {
                    Ok(true) => (Decoder::Headers(request), Action::ReadLine),
                    Ok(false) => match request.body_length() {
                        Some(n) => (Decoder::Body(request, n), Action::ReadBody(n)),
                        None => (Decoder::Closed, Action::Finished(request.complete(None))),
                    },
                    Err(e) => (Decoder::Closed, Action::Failed(e)),
                }
            },
            other => (other, Action::ReadLine),
        }
    }

    /// Takes in the body that was read, or `None` where reading it failed:
    /// the request then keeps an empty body.
    pub fn on_body(self, body: Option<Vec<u8>>) -> (r: (Decoder, Action))
        requires
            self is Body,
        ensures
            r.0 is Closed,
            self matches Decoder::Body(q, n) && (r.1 matches Action::Finished(f) && f@ == completed(
                q@,
                match body {
                    Some(b) => Some(b@),
                    None => None,
                },
            )),
    {
        match self {
            Decoder::Body(request, _) => (Decoder::Closed, Action::Finished(request.complete(body))),
            other => (Decoder::Closed, Action::ReadLine),
        }
    }

    /// Takes in the failure of a read of a line: decoding ends with it.
    pub fn on_read_error(self, error: std::io::Error) -> (r: (Decoder, Action))
        ensures
            r.0 is Closed,
            r.1 matches Action::Failed(ServerError::Read(e)) && e == error,
    {
        (Decoder::Closed, Action::Failed(ServerError::Read(error)))
    }
}

impl Request {
    /// Decodes the request that `input` holds, as the decoder does it for a
    /// stream that delivers `input` and then ends.
    pub fn result_from(input: &str) -> (r: Result<Request, ServerError>)
        ensures
            agrees(r, decode(input@)),
    {
        let v = chars_of(input);
        let n = v.len();
        proof {
            assert(v@.skip(0) =~= v@);
        }
        let first = line_end_from(&v, 0);
        let line = piece(input, 0, first);
        proof {
            assert(input@.subrange(0, first as int) =~= input@.take(first as int));
        }
        let mut request = Request::from_request_line(line.as_str())?;
        let ghost opened = request@;
        let mut pos: usize = first;
        loop
            invariant_except_break
                v@ == input@,
                n == v.len(),
                first <= pos <= n,
                first == line_end(input@),
                request_line(input@.take(first as int)) == Ok::<RequestView, Fault>(opened),
                request@ == (RequestView { headers: request@.headers, ..opened }),
                header_block(input@.skip(first as int), opened.headers) == header_block(
                    input@.skip(pos as int),
                    request@.headers,
                ),
            ensures
                v@ == input@,
                n == v.len(),
                first <= pos <= n,
                request@ == (RequestView { headers: request@.headers, ..opened }),
                header_block(input@.skip(first as int), opened.headers) == Ok::<
                    (Map<Seq<char>, Seq<char>>, Seq<char>),
                    Fault,
                >((request@.headers, input@.skip(pos as int))),
            decreases n - pos,
        {
            let e = line_end_from(&v, pos);
            let line = piece(input, pos, e);
            proof {
                let rest = input@.skip(pos as int);
                assert(rest.take(e - pos) =~= input@.subrange(pos as int, e as int));
                assert(rest.skip(e - pos) =~= input@.skip(e as int));
                assert(ends_headers(Seq::<char>::empty()));
            }
            let more = match request.read_header_line(line.as_str()) {
                Ok(more) => more,
                Err(error) => {
                    proof {
                        let rest = input@.skip(pos as int);
                        assert(header_block(rest, request@.headers) is Err);
                    }
                    return Err(error);
                },
            };
            pos = e;
            if !more {
                break ;
            }
        }
        let body = match request.body_length() {
            Some(len) => {
                let rest = input.substring_char(pos, n).as_bytes();
                proof {
                    assert(input@.subrange(pos as int, n as int) =~= input@.skip(pos as int));
                }
                if len <= rest.len() {
                    Some(vstd::slice::slice_to_vec(vstd::slice::slice_subrange(rest, 0, len)))
                } else {
                    None
                }
            },
            None => None,
        };
        proof {
            let rest = encode_utf8(input@.skip(pos as int));
            if body is Some {
                assert(rest.subrange(0, body->0@.len() as int) =~= rest.take(body->0@.len() as int));
            }
        }
        Ok(request.complete(body))
    }
}

/// A text of capital letters is written as a method is.
pub proof fn lemma_capitals_are_a_method(t: Seq<char>)
    requires
        t.len() > 0,
        forall|i: int| 0 <= i < t.len() ==> 'A' <= #[trigger] t[i] <= 'Z',
    ensures
        is_method(t),
{
    assert forall|i: int| 0 <= i < t.len() implies is_method_char(#[trigger] t[i]) by {
        assert('A' <= t[i] <= 'Z');
    }
}

/// Each of the nine known methods is written as a method is.
pub proof fn lemma_known_method_is_method(t: Seq<char>)
    requires
        is_known_method(t),
    ensures
        is_method(t),
{
    reveal_strlit("GET");
    reveal_strlit("HEAD");
    reveal_strlit("POST");
    reveal_strlit("PUT");
    reveal_strlit("DELETE");
    reveal_strlit("CONNECT");
    reveal_strlit("OPTIONS");
    reveal_strlit("TRACE");
    reveal_strlit("PATCH");
    lemma_capitals_are_a_method(t);
}

/// A request line of exactly three tokens, the first one of the nine known
/// methods and the second a URI, decodes to a request with that method and
/// that URI, unless a header line is refused.
pub proof fn lemma_three_tokens_decode(input: Seq<char>)
    requires
        split_whitespace(input.take(line_end(input))).len() == 3,
        is_known_method(split_whitespace(input.take(line_end(input)))[0]),
        uri_parts(split_whitespace(input.take(line_end(input)))[1]) is Some,
    ensures
        match decode(input) {
            Ok(v) => v.method == split_whitespace(input.take(line_end(input)))[0] && Some(v.url)
                == uri_parts(split_whitespace(input.take(line_end(input)))[1]),
            Err(f) => f is InvalidHeaderName || f is InvalidHeaderValue,
        },
{
    let line = input.take(line_end(input));
    assert(line.len() > 0) by {
        if line.len() == 0 {
            assert(split_whitespace(line).len() == 0);
        }
    }
    lemma_known_method_is_method(split_whitespace(line)[0]);
    lemma_header_block_faults(input.skip(line_end(input)), Map::empty());
}

/// A method token that is none of the nine known methods is refused,
/// whatever follows it: also one that is written as a method is.
pub proof fn lemma_other_methods_fail(input: Seq<char>)
    requires
        split_whitespace(input.take(line_end(input))).len() == 3,
        !is_known_method(split_whitespace(input.take(line_end(input)))[0]),
    ensures
        decode(input) matches Err(f) && (f is InvalidMethod || f == Fault::UnknownMethod(
            split_whitespace(input.take(line_end(input)))[0],
        )),
{
    let line = input.take(line_end(input));
    assert(line.len() > 0) by {
        if line.len() == 0 {
            assert(split_whitespace(line).len() == 0);
        }
    }
}

/// A header block is refused only for a header name or a header value.
pub proof fn lemma_header_block_faults(s: Seq<char>, headers: Map<Seq<char>, Seq<char>>)
    ensures
        header_block(s, headers) matches Err(f) ==> (f is InvalidHeaderName
            || f is InvalidHeaderValue),
    decreases s.len(),
{
    let e = line_end(s);
    let line = s.take(e);
    if !(e <= 0 || ends_headers(line)) {
        match with_header(headers, line) {
            Ok(next) => {
                lemma_header_block_faults(s.skip(e), next);
            },
            Err(f) => {},
        }
    }
}

/// A request line that was read and has fewer or more than three tokens is a
/// broken first line, whatever follows it.
pub proof fn lemma_other_token_counts_fail(input: Seq<char>)
    requires
        input.len() > 0,
        split_whitespace(input.take(line_end(input))).len() != 3,
    ensures
        decode(input) == Err::<RequestView, Fault>(Fault::BrokenFirstLine),
{
    crate::text::lemma_find_char_bounds(input, '\n');
}

} // verus!
