//! The response of the first server: a status line, cookie and setting
//! lines, and the data, all kept as text.

use vstd::prelude::*;
use vstd::string::*;

verus! {

/// The line that sets the cookie `name` to `value`.
pub open spec fn cookie_line(name: Seq<char>, value: Seq<char>) -> Seq<char> {
    "Set-Cookie: "@ + name + "="@ + value + "\r\n"@
}

/// The line that deletes the cookie `name`: it sets an expiry that has passed.
pub open spec fn cookie_removal(name: Seq<char>) -> Seq<char> {
    "Set-Cookie: "@ + name + "=; Expires=Thu, 01 Jan 1970 00:00:00 GMT\r\n"@
}

/// The line that gives the setting `name` the value `value`.
pub open spec fn setting_line(name: Seq<char>, value: Seq<char>) -> Seq<char> {
    name + ": "@ + value + "\r\n"@
}

/// Cookie lines, in the order in which they were added.
#[derive(Debug, Default, Clone)]
pub struct Cookie(pub String);

impl Cookie {
    /// Make a new, empty list of cookie lines.
    pub fn new() -> (c: Cookie)
        ensures
            c.0@ == Seq::<char>::empty(),
    {
        Cookie(String::new())
    }

    /// Addition of a cookie. Lines that are there stay, also one for the same
    /// name: the client goes by the last.
    pub fn add(&mut self, name: &str, value: &str)
        ensures
            final(self).0@ == old(self).0@ + cookie_line(name@, value@),
    {
        self.0.append("Set-Cookie: ");
        self.0.append(name);
        self.0.append("=");
        self.0.append(value);
        self.0.append("\r\n");
        proof {
            assert(self.0@ =~= old(self).0@ + cookie_line(name@, value@));
        }
    }

    /// Deletion of a cookie. Lines that are there stay, also one for the same
    /// name: the client goes by the last.
    pub fn delete(&mut self, name: &str)
        ensures
            final(self).0@ == old(self).0@ + cookie_removal(name@),
    {
        self.0.append("Set-Cookie: ");
        self.0.append(name);
        self.0.append("=; Expires=Thu, 01 Jan 1970 00:00:00 GMT\r\n");
        proof {
            assert(self.0@ =~= old(self).0@ + cookie_removal(name@));
        }
    }
}

/// Setting lines, in the order in which they were added.
#[derive(Debug, Default, Clone)]
pub struct SettingResponse(pub String);

impl SettingResponse {
    /// Make a new, empty list of setting lines.
    pub fn new() -> (s: SettingResponse)
        ensures
            s.0@ == Seq::<char>::empty(),
    {
        SettingResponse(String::new())
    }

    /// Addition of a setting.
    pub fn add(&mut self, name: &str, value: &str)
        ensures
            final(self).0@ == old(self).0@ + setting_line(name@, value@),
    {
        self.0.append(name);
        self.0.append(": ");
        self.0.append(value);
        self.0.append("\r\n");
        proof {
            assert(self.0@ =~= old(self).0@ + setting_line(name@, value@));
        }
    }
}

/// Response structure.
#[derive(Debug, Default)]
pub struct Response {
    /// Status of the response (for example: 404 NOT FOUND, 302 FOUND, 200 OK).
    pub status_line: String,
    /// Data of the response (for example: an HTML file, JSON).
    pub data: String,
    /// Cookie lines.
    pub cookie: Cookie,
    /// Setting lines (for example: Content-Type).
    pub setting: SettingResponse,
}

/// What a response holds, as texts.
pub ghost struct ResponseView {
    pub status_line: Seq<char>,
    pub data: Seq<char>,
    pub cookie: Seq<char>,
    pub setting: Seq<char>,
}

impl View for Response {
    type V = ResponseView;

    open spec fn view(&self) -> ResponseView {
        ResponseView {
            status_line: self.status_line@,
            data: self.data@,
            cookie: self.cookie.0@,
            setting: self.setting.0@,
        }
    }
}

/// The text that `v` is sent as under the protocol tag `http`.
pub open spec fn formatted(v: ResponseView, http: Seq<char>) -> Seq<char> {
    http + " "@ + v.status_line + "\r\n"@ + v.cookie + v.setting + v.data
}

impl Response {
    /// Make a new response: not found, and nothing else.
    pub fn new() -> (r: Response)
        ensures
            r@ == (ResponseView {
                status_line: "404 NOT FOUND"@,
                data: Seq::empty(),
                cookie: Seq::empty(),
                setting: Seq::empty(),
            }),
    {
        Response {
            status_line: String::from_str("404 NOT FOUND"),
            data: String::new(),
            cookie: Cookie::new(),
            setting: SettingResponse::new(),
        }
    }

    /// Write the response into one text.
    pub fn format(&self, http: &str) -> (s: String)
        ensures
            s@ == formatted(self@, http@),
    {
        let mut s = String::from_str(http);
        s.append(" ");
        s.append(self.status_line.as_str());
        s.append("\r\n");
        s.append(self.cookie.0.as_str());
        s.append(self.setting.0.as_str());
        s.append(self.data.as_str());
        proof {
            assert(s@ =~= formatted(self@, http@));
        }
        s
    }

    /// Set status and data: what the data held before is gone. The data
    /// begin with the blank line that ends the header block.
    pub fn set_response(&mut self, status: &str, data: &str)
        ensures
            final(self)@ == (ResponseView {
                status_line: status@,
                data: "\r\n"@ + data@,
                ..old(self)@
            }),
    {
        self.status_line = String::from_str(status);
        let mut text = String::from_str("\r\n");
        text.append(data);
        self.data = text;
    }

    /// Redirect the client: what the data held before is gone. The data are
    /// a `Location` line, with no blank line before it.
    pub fn set_redirect(&mut self, location: &str)
        ensures
            final(self)@ == (ResponseView {
                status_line: "302 FOUND"@,
                data: "Location: "@ + location@,
                ..old(self)@
            }),
    {
        self.status_line = String::from_str("302 FOUND");
        let mut text = String::from_str("Location: ");
        text.append(location);
        self.data = text;
    }
}

} // verus!
