//! What the thread-based server makes of one read and of one response: the
//! request that the bytes hold, and the text and binary data that go back.

use crate::server::request::{parsed, Request};
use crate::server::response::{formatted, wants_default_page, Response};
use crate::text::{lemma_lines_of_text, lossy_text, trim, trim_str, utf8_lossy, views};
use vstd::prelude::*;
use vstd::string::*;

verus! {

/// The settings of the server: the page that stands in for a response that
/// is not found. It is set before serving begins.
#[derive(Debug, Clone)]
pub struct TcpServer {
    /// The default page.
    pub def_page: Response,
}

impl TcpServer {
    /// Make a new server, with a default page that holds nothing.
    pub fn new() -> (s: TcpServer)
        ensures
            s.def_page@ == crate::server::response::blank(),
    {
        TcpServer { def_page: Response::const_new() }
    }

    /// Set the default page.
    pub fn set_def_page(&mut self, def_page: Response)
        ensures
            final(self).def_page == def_page,
    {
        self.def_page = def_page;
    }

    /// The request that one read of the stream gave: `read` bytes were read
    /// into `buffer`, which held spaces before. There is none where nothing
    /// was read, and where the buffer holds nothing but whitespace.
    pub fn read_stream_to_request(read: usize, buffer: &[u8]) -> (r: Option<Request>)
        ensures
            match r {
                Some(request) => read > 0 && trim(utf8_lossy(buffer@)).len() > 0 && request@
                    == parsed(trim(utf8_lossy(buffer@))),
                None => read == 0 || trim(utf8_lossy(buffer@)).len() == 0,
            },
    {
        if read == 0 {
            return None;
        }
        let text = lossy_text(buffer);
        let trimmed = trim_str(text.as_str());
        if trimmed.is_empty() {
            return None;
        }
        proof {
            lemma_lines_of_text(trimmed@, Seq::empty());
        }
        Some(Request::parse_to_self(trimmed))
    }

    /// What is written for `response` to `request`: the text, under the
    /// protocol tag `type_http` or, without one, under the tag of the request,
    /// and the binary data. A response that is not found, or has no status,
    /// is answered with the default page.
    pub fn write_stream(&self, request: &Request, response: &Response, type_http: Option<&str>)
        -> (r: (String, Vec<u8>))
        requires
            type_http is None ==> request@.metod_url_http.len() > 2,
        ensures
            ({
                let http = match type_http {
                    Some(tag) => tag@,
                    None => request@.metod_url_http[2],
                };
                if wants_default_page(response@) {
                    r.0@ == formatted(http, "200 OK"@, self.def_page@) && r.1@
                        == self.def_page@.binary_data
                } else {
                    r.0@ == formatted(http, response@.status_code, response@) && r.1@
                        == response@.binary_data
                }
            }),
    {
        let http = match type_http {
            Some(tag) => tag,
            None => {
                proof {
                    assert(views(request.metod_url_http@)[2] == request.metod_url_http@[2]@);
                }
                request.metod_url_http[2].as_str()
            },
        };
        let (format, use_self) = response.format(http, &self.def_page);
        let binary_data = if use_self {
            response.binary_data.clone()
        } else {
            self.def_page.binary_data.clone()
        };
        (format, binary_data)
    }
}

} // verus!
