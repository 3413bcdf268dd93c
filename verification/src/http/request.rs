//! The request decoder: a request line, a header block that a blank line
//! ends, and a body of the length that `Content-Length` gives.

use crate::rest::errors::ServerError;
use crate::string_map::{str_equal, StringMap};
use crate::text::{
    chars_of, find_char, find_from, lemma_find_char_bounds, parse_usize, parse_usize_str, piece, split_on, split_on_str,
    split_once, split_once_str, split_whitespace, split_whitespace_str, trim, trim_end,
    trim_end_str, trim_str, views,
};
use vstd::prelude::*;
use vstd::string::*;
use vstd::utf8::encode_utf8;

verus! {

/// HTTP method.
#[derive(Debug, Clone, PartialEq, Eq, Structural, PartialOrd, Ord, Default, Hash)]
pub enum HttpMethod {
    /// Requests a representation of the specified resource.
    #[default]
    Get,
    /// Asks for a response identical to a GET request, but without a body.
    Head,
    /// Submits an entity to the specified resource.
    Post,
    /// Replaces all current representations of the target resource.
    Put,
    /// Deletes the specified resource.
    Delete,
    /// Establishes a tunnel to the server identified by the target resource.
    Connect,
    /// Describes the communication options for the target resource.
    Options,
    /// Performs a message loop-back test along the path to the target resource.
    Trace,
    /// Applies partial modifications to a resource.
    Patch,
}

impl HttpMethod {
    /// The method that the token `t` names, where it names one.
    pub open spec fn of_token(t: Seq<char>) -> Option<HttpMethod> {
        if t == "GET"@ {
            Some(HttpMethod::Get)
        } else if t == "HEAD"@ {
            Some(HttpMethod::Head)
        } else if t == "POST"@ {
            Some(HttpMethod::Post)
        } else if t == "PUT"@ {
            Some(HttpMethod::Put)
        } else if t == "DELETE"@ {
            Some(HttpMethod::Delete)
        } else if t == "CONNECT"@ {
            Some(HttpMethod::Connect)
        } else if t == "OPTIONS"@ {
            Some(HttpMethod::Options)
        } else if t == "TRACE"@ {
            Some(HttpMethod::Trace)
        } else if t == "PATCH"@ {
            Some(HttpMethod::Patch)
        } else {
            None
        }
    }

    /// The method that `data` names; any other token is an unknown method.
    pub fn from_str(data: &str) -> (r: Result<HttpMethod, ServerError>)
        ensures
            match r {
                Ok(m) => HttpMethod::of_token(data@) == Some(m),
                Err(e) => HttpMethod::of_token(data@) is None && (e matches ServerError::UnknownMethod(
                    s,
                ) && s@ == data@),
            },
    {
        if str_equal(data, "GET") {
            Ok(HttpMethod::Get)
        } else if str_equal(data, "HEAD") {
            Ok(HttpMethod::Head)
        } else if str_equal(data, "POST") {
            Ok(HttpMethod::Post)
        } else if str_equal(data, "PUT") {
            Ok(HttpMethod::Put)
        } else if str_equal(data, "DELETE") {
            Ok(HttpMethod::Delete)
        } else if str_equal(data, "CONNECT") {
            Ok(HttpMethod::Connect)
        } else if str_equal(data, "OPTIONS") {
            Ok(HttpMethod::Options)
        } else if str_equal(data, "TRACE") {
            Ok(HttpMethod::Trace)
        } else if str_equal(data, "PATCH") {
            Ok(HttpMethod::Patch)
        } else {
            Err(ServerError::UnknownMethod(String::from_str(data)))
        }
    }
}

/// A parsed HTTP request.
#[derive(Debug, Clone)]
pub struct Request {
    /// HTTP request method (GET, POST, etc.).
    pub method: HttpMethod,
    /// Requested URL path.
    pub url: String,
    /// Optional `Host` header.
    pub host: Option<String>,
    /// Request cookies as key-value pairs.
    pub cookies: StringMap,
    /// HTTP request headers as key-value pairs.
    pub headers: StringMap,
    /// Request body.
    pub body: Vec<u8>,
}

/// What a request holds, as mathematical values.
pub ghost struct RequestView {
    pub method: HttpMethod,
    pub url: Seq<char>,
    pub host: Option<Seq<char>>,
    pub cookies: Map<Seq<char>, Seq<char>>,
    pub headers: Map<Seq<char>, Seq<char>>,
    pub body: Seq<u8>,
}

impl View for Request {
    type V = RequestView;

    open spec fn view(&self) -> RequestView {
        RequestView {
            method: self.method,
            url: self.url@,
            host: match self.host {
                Some(h) => Some(h@),
                None => None,
            },
            cookies: self.cookies@,
            headers: self.headers@,
            body: self.body@,
        }
    }
}

/// What decoding comes to: a request, or the reason why there is none.
pub ghost enum Decoded {
    Request(RequestView),
    EmptyRequest,
    BrokenFirstLine,
    UnknownMethod(Seq<char>),
}

/// Whether the result `r` is what `d` describes.
pub open spec fn agrees(r: Result<Request, ServerError>, d: Decoded) -> bool {
    match d {
        Decoded::Request(v) => r matches Ok(request) && request@ == v,
        Decoded::EmptyRequest => r matches Err(ServerError::EmptyRequest),
        Decoded::BrokenFirstLine => r matches Err(ServerError::BrokenFirstLine),
        Decoded::UnknownMethod(t) => r matches Err(ServerError::UnknownMethod(s)) && s@ == t,
    }
}

/// `acc` with the `key=value` pairs of `parts` stored in it, in order. A part
/// without `=` is passed over; key and value are trimmed.
pub open spec fn pairs_into(parts: Seq<Seq<char>>, acc: Map<Seq<char>, Seq<char>>) -> Map<
    Seq<char>,
    Seq<char>,
>
    decreases parts.len(),
{
    if parts.len() == 0 {
        acc
    } else {
        pairs_into(
            parts.drop_first(),
            match split_once(parts[0], '=') {
                Some((k, v)) => acc.insert(trim(k), trim(v)),
                None => acc,
            },
        )
    }
}

/// The `key=value` pairs of `data`, whose parts `sep` separates.
pub open spec fn pairs_of(data: Seq<char>, sep: Seq<char>) -> Map<Seq<char>, Seq<char>> {
    pairs_into(split_on(data, sep), Map::empty())
}

/// What the request line `line` decodes to.
pub open spec fn request_line(line: Seq<char>) -> Decoded {
    let tokens = split_whitespace(line);
    if line.len() == 0 {
        Decoded::EmptyRequest
    } else if tokens.len() != 3 {
        Decoded::BrokenFirstLine
    } else {
        match HttpMethod::of_token(tokens[0]) {
            Some(method) => Decoded::Request(
                RequestView {
                    method,
                    url: tokens[1],
                    host: None,
                    cookies: Map::empty(),
                    headers: Map::empty(),
                    body: Seq::empty(),
                },
            ),
            None => Decoded::UnknownMethod(tokens[0]),
        }
    }
}

/// Whether `line` ends the header block: nothing was read, or nothing but
/// whitespace.
pub open spec fn ends_headers(line: Seq<char>) -> bool {
    trim_end(line).len() == 0
}

/// `headers` after the header line `line`: what stands before the first colon
/// names the header, what stands behind it is its value, both trimmed. A line
/// without a colon changes nothing.
pub open spec fn with_header(headers: Map<Seq<char>, Seq<char>>, line: Seq<char>) -> Map<
    Seq<char>,
    Seq<char>,
> {
    match split_once(trim(line), ':') {
        Some((name, value)) => headers.insert(trim(name), trim(value)),
        None => headers,
    }
}

/// The length of the body that `headers` announce.
pub open spec fn content_length(headers: Map<Seq<char>, Seq<char>>) -> Option<usize> {
    if headers.dom().contains("Content-Length"@) {
        parse_usize(headers["Content-Length"@])
    } else {
        None
    }
}

/// `v` with the body that was read, if any, and with the `Cookie` and `Host`
/// headers moved out of the header map into their own fields.
pub open spec fn completed(v: RequestView, body: Option<Seq<u8>>) -> RequestView {
    let without_cookie = v.headers.remove("Cookie"@);
    RequestView {
        method: v.method,
        url: v.url,
        host: if without_cookie.dom().contains("Host"@) {
            Some(without_cookie["Host"@])
        } else {
            v.host
        },
        cookies: if v.headers.dom().contains("Cookie"@) {
            pairs_of(v.headers["Cookie"@], "; "@)
        } else {
            v.cookies
        },
        headers: without_cookie.remove("Host"@),
        body: match body {
            Some(b) => b,
            None => v.body,
        },
    }
}

impl Request {
    /// The `key=value` pairs of the parts `parts`, stored in order: of two
    /// parts with one key the later one stays.
    pub fn pairs_from(parts: &Vec<String>) -> (m: StringMap)
        ensures
            m@ == pairs_into(views(parts@), Map::empty()),
    {
        let mut m = StringMap::new();
        let mut i: usize = 0;
        proof {
            assert(views(parts@).skip(0) =~= views(parts@));
        }
        while i < parts.len()
            invariant
                i <= parts.len(),
                pairs_into(views(parts@), Map::empty()) == pairs_into(
                    views(parts@).skip(i as int),
                    m@,
                ),
            decreases parts.len() - i,
        {
            let ghost rest = views(parts@).skip(i as int);
            proof {
                assert(rest[0] == parts@[i as int]@);
                assert(rest.drop_first() =~= views(parts@).skip(i + 1));
            }
            match split_once_str(parts[i].as_str(), '=') {
                Some((k, v)) => {
                    m.insert(String::from_str(trim_str(k)), String::from_str(trim_str(v)));
                },
                None => {},
            }
            i += 1;
        }
        m
    }

    /// The `key=value` pairs of `data`, whose parts `char_split` separates.
    pub fn get_data(data: &str, char_split: &str) -> (m: StringMap)
        ensures
            m@ == pairs_of(data@, char_split@),
    {
        let parts = split_on_str(data, char_split);
        Request::pairs_from(&parts)
    }

    /// The request that the request line `line` opens. An empty `line` stands
    /// for a stream that ended before it sent anything.
    pub fn from_request_line(line: &str) -> (r: Result<Request, ServerError>)
        ensures
            agrees(r, request_line(line@)),
    {
        if line.is_empty() {
            return Err(ServerError::EmptyRequest);
        }
        let mut parts = split_whitespace_str(line);
        if parts.len() != 3 {
            return Err(ServerError::BrokenFirstLine);
        }
        proof {
            assert(views(parts@)[0] == parts@[0]@);
            assert(views(parts@)[1] == parts@[1]@);
        }
        let method = HttpMethod::from_str(parts[0].as_str())?;
        let url = parts.swap_remove(1);
        Ok(
            Request {
                method,
                url,
                host: None,
                cookies: StringMap::new(),
                headers: StringMap::new(),
                body: Vec::new(),
            },
        )
    }

    /// Takes in one line of the header block. Returns whether the block goes
    /// on: `false` at a blank line and at the end of the stream.
    pub fn header_line(&mut self, line: &str) -> (more: bool)
        ensures
            more == !ends_headers(line@),
            final(self)@ == (RequestView {
                headers: if more {
                    with_header(old(self)@.headers, line@)
                } else {
                    old(self)@.headers
                },
                ..old(self)@
            }),
    {
        if trim_end_str(line).is_empty() {
            return false;
        }
        match split_once_str(trim_str(line), ':') {
            Some((name, value)) => {
                self.headers.insert(
                    String::from_str(trim_str(name)),
                    String::from_str(trim_str(value)),
                );
            },
            None => {},
        }
        true
    }

    /// The length of the body that the headers announce.
    pub fn body_length(&self) -> (n: Option<usize>)
        ensures
            n == content_length(self@.headers),
    {
        match self.headers.get("Content-Length") {
            Some(value) => parse_usize_str(value.as_str()),
            None => None,
        }
    }

    /// Ends the decoding: stores the body that was read, if one was, and moves
    /// the `Cookie` and `Host` headers into their own fields.
    pub fn complete(self, body: Option<Vec<u8>>) -> (r: Request)
        ensures
            r@ == completed(
                self@,
                match body {
                    Some(b) => Some(b@),
                    None => None,
                },
            ),
    {
        let mut request = self;
        match body {
            Some(b) => {
                request.body = b;
            },
            None => {},
        }
        match request.headers.remove("Cookie") {
            Some(cookies) => {
                request.cookies = Request::get_data(cookies.as_str(), "; ");
            },
            None => {},
        }
        match request.headers.remove("Host") {
            Some(host) => {
                request.host = Some(host);
            },
            None => {},
        }
        request
    }
}

/// Where the first line of `s` ends: behind its first line feed, or at the
/// end of `s` where it holds none.
pub open spec fn line_end(s: Seq<char>) -> int {
    let k = find_char(s, '\n');
    if k < s.len() {
        k + 1
    } else {
        s.len() as int
    }
}

/// The header map after the header block that `s` begins with, and what
/// follows the block in `s`.
pub open spec fn header_block(s: Seq<char>, headers: Map<Seq<char>, Seq<char>>) -> (
    Map<Seq<char>, Seq<char>>,
    Seq<char>,
)
    decreases s.len(),
{
    let e = line_end(s);
    let line = s.take(e);
    if e <= 0 || ends_headers(line) {
        (headers, s.skip(e))
    } else {
        header_block(s.skip(e), with_header(headers, line))
    }
}

/// The body that is read from `rest` under `headers`: as many bytes as
/// `Content-Length` asks for, where `rest` holds that many.
pub open spec fn body_read(headers: Map<Seq<char>, Seq<char>>, rest: Seq<u8>) -> Option<Seq<u8>> {
    match content_length(headers) {
        Some(n) => if n <= rest.len() {
            Some(rest.take(n as int))
        } else {
            None
        },
        None => None,
    }
}

/// What the text `input` of one connection decodes to.
pub open spec fn decode(input: Seq<char>) -> Decoded {
    let e = line_end(input);
    match request_line(input.take(e)) {
        Decoded::Request(v) => {
            let (headers, rest) = header_block(input.skip(e), v.headers);
            Decoded::Request(
                completed(RequestView { headers, ..v }, body_read(headers, encode_utf8(rest))),
            )
        },
        d => d,
    }
}

/// Where the first line of `v[from..]` ends.
pub fn line_end_from(v: &Vec<char>, from: usize) -> (e: usize)
    requires
        from <= v.len(),
    ensures
        from <= e <= v.len(),
        e - from == line_end(v@.skip(from as int)),
        from < v.len() ==> from < e,
{
    let k = find_from(v, from, '\n');
    if k < v.len() {
        k + 1
    } else {
        k
    }
}

/// The next thing that a decoder asks of the connection.
#[derive(Debug)]
pub enum Action {
    /// Read one line, up to and with its line feed, and hand it to `on_line`;
    /// hand over an empty line where the stream has ended.
    ReadLine,
    /// Read exactly this many bytes and hand them to `on_body`, or `None`
    /// where they cannot be read.
    ReadBody(usize),
    /// The request is decoded.
    Finished(Request),
    /// There is no request: drop the connection.
    Failed(ServerError),
}

/// The decoder of one connection, between two reads.
#[derive(Debug)]
pub enum Decoder {
    /// Nothing was read yet.
    RequestLine,
    /// The request line was read; header lines follow.
    Headers(Request),
    /// The header block has ended; a body of this length follows.
    Body(Request, usize),
    /// Decoding has ended.
    Closed,
}

impl Decoder {
    /// A decoder that waits for the request line.
    pub fn new() -> (d: Decoder)
        ensures
            d is RequestLine,
    {
        Decoder::RequestLine
    }

    /// Whether the decoder waits for a line.
    pub open spec fn reads_line(self) -> bool {
        self is RequestLine || self is Headers
    }

    /// Takes in the line that was read.
    pub fn on_line(self, line: &str) -> (r: (Decoder, Action))
        requires
            self.reads_line(),
        ensures
            self is RequestLine ==> match request_line(line@) {
                Decoded::Request(v) => (r.0 matches Decoder::Headers(q) && q@ == v)
                    && r.1 is ReadLine,
                d => r.0 is Closed && (r.1 matches Action::Failed(e) && agrees(Err(e), d)),
            },
            self matches Decoder::Headers(q) ==> if !ends_headers(line@) {
                (r.0 matches Decoder::Headers(q2) && q2@ == (RequestView {
                    headers: with_header(q@.headers, line@),
                    ..q@
                })) && r.1 is ReadLine
            } else {
                match content_length(q@.headers) {
                    Some(n) => (r.0 matches Decoder::Body(q2, m) && q2@ == q@ && m == n) && (
                    r.1 matches Action::ReadBody(m) && m == n),
                    None => r.0 is Closed && (r.1 matches Action::Finished(f) && f@ == completed(
                        q@,
                        None,
                    )),
                }
            },
    {
        match self {
            Decoder::RequestLine => match Request::from_request_line(line) {
                Ok(request) => (Decoder::Headers(request), Action::ReadLine),
                Err(e) => (Decoder::Closed, Action::Failed(e)),
            },
            Decoder::Headers(request) => {
                let mut request = request;
                if request.header_line(line) {
                    (Decoder::Headers(request), Action::ReadLine)
                } else {
                    match request.body_length() {
                        Some(n) => (Decoder::Body(request, n), Action::ReadBody(n)),
                        None => (Decoder::Closed, Action::Finished(request.complete(None))),
                    }
                }
            },
            other => (other, Action::ReadLine),
        }
    }

    /// Takes in the body that was read, or `None` where reading it failed:
    /// the request then keeps an empty body.
    pub fn on_body(self, body: Option<Vec<u8>>) -> (r: (Decoder, Action))
        requires
            self is Body,
        ensures
            r.0 is Closed,
            self matches Decoder::Body(q, n) && (r.1 matches Action::Finished(f) && f@ == completed(
                q@,
                match body {
                    Some(b) => Some(b@),
                    None => None,
                },
            )),
    {
        match self {
            Decoder::Body(request, _) => (Decoder::Closed, Action::Finished(request.complete(body))),
            other => (Decoder::Closed, Action::ReadLine),
        }
    }

    /// Takes in the failure of a read of a line: decoding ends with it.
    pub fn on_read_error(self, error: std::io::Error) -> (r: (Decoder, Action))
        ensures
            r.0 is Closed,
            r.1 matches Action::Failed(ServerError::ReadError(e)) && e == error,
    {
        (Decoder::Closed, Action::Failed(ServerError::ReadError(error)))
    }
}

impl Request {
    /// Decodes the request that `input` holds, as the decoder does it for a
    /// stream that delivers `input` and then ends.
    pub fn result_from(input: &str) -> (r: Result<Request, ServerError>)
        ensures
            agrees(r, decode(input@)),
    {
        let v = chars_of(input);
        let n = v.len();
        proof {
            assert(v@.skip(0) =~= v@);
        }
        let first = line_end_from(&v, 0);
        let line = piece(input, 0, first);
        proof {
            assert(input@.subrange(0, first as int) =~= input@.take(first as int));
        }
        let mut request = Request::from_request_line(line.as_str())?;
        let ghost opened = request@;
        let mut pos: usize = first;
        loop
            invariant_except_break
                v@ == input@,
                n == v.len(),
                first <= pos <= n,
                request@ == (RequestView { headers: request@.headers, ..opened }),
                header_block(input@.skip(first as int), opened.headers) == header_block(
                    input@.skip(pos as int),
                    request@.headers,
                ),
            ensures
                v@ == input@,
                n == v.len(),
                first <= pos <= n,
                request@ == (RequestView { headers: request@.headers, ..opened }),
                header_block(input@.skip(first as int), opened.headers) == (
                    request@.headers,
                    input@.skip(pos as int),
                ),
            decreases n - pos,
        {
            let e = line_end_from(&v, pos);
            let line = piece(input, pos, e);
            proof {
                let rest = input@.skip(pos as int);
                assert(rest.take(e - pos) =~= input@.subrange(pos as int, e as int));
                assert(rest.skip(e - pos) =~= input@.skip(e as int));
                assert(ends_headers(Seq::<char>::empty()));
            }
            let more = request.header_line(line.as_str());
            pos = e;
            if !more {
                break ;
            }
        }
        let body = match request.body_length() {
            Some(len) => {
                let rest = input.substring_char(pos, n).as_bytes();
                proof {
                    assert(input@.subrange(pos as int, n as int) =~= input@.skip(pos as int));
                }
                if len <= rest.len() {
                    let mut taken: Vec<u8> = Vec::new();
                    let mut i: usize = 0;
                    while i < len
                        invariant
                            i <= len <= rest@.len(),
                            taken@ == rest@.take(i as int),
                        decreases len - i,
                    {
                        taken.push(rest[i]);
                        proof {
                            assert(rest@.take(i + 1) =~= rest@.take(i as int).push(rest@[i as int]));
                        }
                        i += 1;
                    }
                    Some(taken)
                } else {
                    None
                }
            },
            None => None,
        };
        Ok(request.complete(body))
    }
}

/// A request line of exactly three tokens, the first of which names a
/// method, decodes to a request with that method and with the second token
/// as its URL, whatever follows the line.
pub proof fn lemma_three_tokens_decode(input: Seq<char>)
    requires
        split_whitespace(input.take(line_end(input))).len() == 3,
        HttpMethod::of_token(split_whitespace(input.take(line_end(input)))[0]) is Some,
    ensures
        decode(input) matches Decoded::Request(v) && Some(v.method) == HttpMethod::of_token(
            split_whitespace(input.take(line_end(input)))[0],
        ) && v.url == split_whitespace(input.take(line_end(input)))[1],
{
    let line = input.take(line_end(input));
    assert(line.len() > 0) by {
        if line.len() == 0 {
            assert(split_whitespace(line).len() == 0);
        }
    }
}

/// A request line that was read and has fewer or more than three tokens is a
/// broken first line, whatever follows it.
pub proof fn lemma_other_token_counts_fail(input: Seq<char>)
    requires
        input.len() > 0,
        split_whitespace(input.take(line_end(input))).len() != 3,
    ensures
        decode(input) == Decoded::BrokenFirstLine,
{
    lemma_find_char_bounds(input, '\n');
}

/// Where nothing was read at all, there is an empty request.
pub proof fn lemma_nothing_read_is_empty_request()
    ensures
        decode(Seq::<char>::empty()) == Decoded::EmptyRequest,
{
    assert(Seq::<char>::empty().take(line_end(Seq::<char>::empty())).len() == 0);
}

} // verus!
