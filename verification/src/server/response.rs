//! The response of the thread-based server: status, text data, binary data,
//! cookie and setting lines.

pub use crate::response::{Cookie, SettingResponse};
use vstd::prelude::*;
use vstd::string::*;

verus! {

/// Response structure.
#[derive(Debug, Clone, Default)]
pub struct Response {
    /// Status of the response (for example: 404 NOT FOUND, 302 FOUND, 200 OK).
    pub status_code: String,
    /// Text data of the response (for example: an HTML file, JSON).
    pub string_data: String,
    /// Binary data of the response (for example: video, music, image).
    pub binary_data: Vec<u8>,
    /// Cookie lines.
    pub cookie: Cookie,
    /// Setting lines (for example: Content-Type).
    pub setting: SettingResponse,
}

/// What a response holds, as mathematical values.
pub ghost struct ResponseView {
    pub status_code: Seq<char>,
    pub string_data: Seq<char>,
    pub binary_data: Seq<u8>,
    pub cookie: Seq<char>,
    pub setting: Seq<char>,
}

impl View for Response {
    type V = ResponseView;

    open spec fn view(&self) -> ResponseView {
        ResponseView {
            status_code: self.status_code@,
            string_data: self.string_data@,
            binary_data: self.binary_data@,
            cookie: self.cookie.0@,
            setting: self.setting.0@,
        }
    }
}

/// The response that holds nothing.
pub open spec fn blank() -> ResponseView {
    ResponseView {
        status_code: Seq::empty(),
        string_data: Seq::empty(),
        binary_data: Seq::empty(),
        cookie: Seq::empty(),
        setting: Seq::empty(),
    }
}

/// The text that `v` is sent as under the protocol tag `http`, with
/// `status_code` for its status.
pub open spec fn formatted(http: Seq<char>, status_code: Seq<char>, v: ResponseView) -> Seq<char> {
    http + " "@ + status_code + "\r\n"@ + v.cookie + v.setting + v.string_data
}

/// Whether `v` is answered with the default page: it is not found, or has no
/// status at all.
pub open spec fn wants_default_page(v: ResponseView) -> bool {
    v.status_code == "404 NOT FOUND"@ || v.status_code.len() == 0
}

impl Response {
    /// Make a new response that holds nothing.
    pub fn const_new() -> (r: Response)
        ensures
            r@ == blank(),
    {
        Response {
            status_code: String::new(),
            string_data: String::new(),
            binary_data: Vec::new(),
            cookie: Cookie::new(),
            setting: SettingResponse::new(),
        }
    }

    /// Write the response into one text. A response that is not found, or
    /// has no status, is answered with the default page `def_page` and status
    /// 200 in its place; the flag tells whether the text is of the response
    /// itself.
    pub fn format(&self, http: &str, def_page: &Response) -> (r: (String, bool))
        ensures
            r.1 == !wants_default_page(self@),
            r.0@ == if wants_default_page(self@) {
                formatted(http@, "200 OK"@, def_page@)
            } else {
                formatted(http@, self@.status_code, self@)
            },
    {
        if crate::string_map::str_equal(self.status_code.as_str(), "404 NOT FOUND")
            || self.status_code.as_str().is_empty() {
            return (Response::format_arg(http, "200 OK", def_page), false);
        }
        (Response::format_arg(http, self.status_code.as_str(), self), true)
    }

    /// Write `response` into one text, with `status_code` for its status.
    pub fn format_arg(http: &str, status_code: &str, response: &Response) -> (s: String)
        ensures
            s@ == formatted(http@, status_code@, response@),
    {
        let mut s = String::from_str(http);
        s.append(" ");
        s.append(status_code);
        s.append("\r\n");
        s.append(response.cookie.0.as_str());
        s.append(response.setting.0.as_str());
        s.append(response.string_data.as_str());
        proof {
            assert(s@ =~= formatted(http@, status_code@, response@));
        }
        s
    }

    /// Set status and text data: what the text data held before is gone.
    /// The data begin with the blank line that ends the header block.
    pub fn set_response(&mut self, status: &str, string_data: &str)
        ensures
            final(self)@ == (ResponseView {
                status_code: status@,
                string_data: "\r\n"@ + string_data@,
                ..old(self)@
            }),
    {
        self.status_code = String::from_str(status);
        let mut text = String::from_str("\r\n");
        text.append(string_data);
        self.string_data = text;
    }

    /// Redirect the client: what the text data held before is gone. The data
    /// are a `Location` line, with no blank line before it.
    pub fn set_redirect(&mut self, location: &str)
        ensures
            final(self)@ == (ResponseView {
                status_code: "302 FOUND"@,
                string_data: "Location: "@ + location@,
                ..old(self)@
            }),
    {
        self.status_code = String::from_str("302 FOUND");
        let mut text = String::from_str("Location: ");
        text.append(location);
        self.string_data = text;
    }

    /// Make a new response from what reading a file came to.
    pub fn new_from_file(content: Option<Vec<u8>>, type_file: &str) -> (r: Response)
        ensures
            r@ == after_file(
                blank(),
                match content {
                    Some(data) => Some(data@),
                    None => None,
                },
                type_file@,
            ),
    {
        let mut response = Response::const_new();
        response.set_file(content, type_file);
        response
    }

    /// Takes in what reading a file came to. With the content of the file,
    /// the status is 200, the text data are the blank line, the binary data
    /// are the content, and a `Content-Type` setting of `type_file` is added.
    /// With `None`, for a file that could not be read, the status is 404 and
    /// nothing else changes.
    pub fn set_file(&mut self, content: Option<Vec<u8>>, type_file: &str)
        ensures
            final(self)@ == after_file(
                old(self)@,
                match content {
                    Some(data) => Some(data@),
                    None => None,
                },
                type_file@,
            ),
    {
        match content {
            Some(buffer) => {
                self.set_response("200 OK", "");
                self.binary_data = buffer;
                self.setting.add("Content-Type", type_file);
                proof {
                    assert("\r\n"@ + ""@ =~= "\r\n"@) by {
                        reveal_strlit("");
                    }
                }
            },
            None => {
                self.status_code = String::from_str("404 NOT FOUND");
            },
        }
    }
}

/// `v` after a file was read for it, or could not be read.
pub open spec fn after_file(v: ResponseView, content: Option<Seq<u8>>, type_file: Seq<char>)
    -> ResponseView {
    match content {
        Some(data) => ResponseView {
            status_code: "200 OK"@,
            string_data: "\r\n"@,
            binary_data: data,
            setting: v.setting + crate::response::setting_line("Content-Type"@, type_file),
            ..v
        },
        None => ResponseView { status_code: "404 NOT FOUND"@, ..v },
    }
}

} // verus!
