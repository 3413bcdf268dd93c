//! Status codes, their decimal text and their reason phrases.

use vstd::prelude::*;

verus! {

/// An HTTP status code: the number that stands on the status line.
#[derive(Debug, Clone, Copy, PartialEq, Eq, Structural, PartialOrd, Ord, Hash)]
pub struct StatusCode(pub u16);

/// The reason phrase that the `http` crate knows for the status code `code`.
pub uninterp spec fn canonical_reason(code: u16) -> Option<Seq<char>>;

/// The character that writes the digit `d`.
pub open spec fn digit_char(d: nat) -> char {
    ((d % 10) as u8 + 48u8) as char
}

/// `n` written in base ten, without a sign and without leading zeros.
pub open spec fn decimal(n: nat) -> Seq<char>
    decreases n,
{
    if n < 10 {
        seq![digit_char(n)]
    } else {
        decimal(n / 10).push(digit_char(n % 10))
    }
}

/// Whether `r` is the phrase `phrase`.
pub open spec fn is_phrase(r: Option<&'static str>, phrase: &str) -> bool {
    r matches Some(p) && p@ == phrase@
}

/// Calls `http::StatusCode::from_u16` and, on the status code that it gives,
/// `canonical_reason`. The phrase is the crate's table entry for `code`;
/// `None` stands for a number that is no status code or has no entry. Of the
/// table, the entries of the three status codes that responses are given
/// here are stated.
#[verifier::external_body]
pub(crate) fn reason_of(code: u16) -> (r: Option<&'static str>)
    ensures
        match r {
            Some(phrase) => canonical_reason(code) == Some(phrase@),
            None => canonical_reason(code) is None,
        },
        code == 200 ==> is_phrase(r, "OK"),
        code == 302 ==> is_phrase(r, "Found"),
        code == 404 ==> is_phrase(r, "Not Found"),
{
    http::StatusCode::from_u16(code).ok().and_then(|status| status.canonical_reason())
}

/// Calls `itoa::Buffer::format`, which writes an integer as decimal text.
#[verifier::external_body]
pub(crate) fn format_u16(n: u16) -> (s: String)
    ensures
        s@ == decimal(n as nat),
{
    itoa::Buffer::new().format(n).to_string()
}

impl StatusCode {
    /// 200, the request has succeeded.
    pub fn ok() -> (s: StatusCode)
        ensures
            s == StatusCode(200),
    {
        StatusCode(200)
    }

    /// 302, the resource resides under a different URI for now.
    pub fn found() -> (s: StatusCode)
        ensures
            s == StatusCode(302),
    {
        StatusCode(302)
    }

    /// 404, nothing matches the request.
    pub fn not_found() -> (s: StatusCode)
        ensures
            s == StatusCode(404),
    {
        StatusCode(404)
    }

    /// The number of this status code.
    pub fn as_u16(&self) -> (n: u16)
        ensures
            n == self.0,
    {
        self.0
    }

    /// The reason phrase of this status code, where it has one.
    pub fn canonical_reason(&self) -> (r: Option<&'static str>)
        ensures
            match r {
                Some(phrase) => canonical_reason(self.0) == Some(phrase@),
                None => canonical_reason(self.0) is None,
            },
            self.0 == 200 ==> is_phrase(r, "OK"),
            self.0 == 302 ==> is_phrase(r, "Found"),
            self.0 == 404 ==> is_phrase(r, "Not Found"),
    {
        reason_of(self.0)
    }

    /// The number of this status code as decimal text.
    pub fn digits(&self) -> (s: String)
        ensures
            s@ == decimal(self.0 as nat),
    {
        format_u16(self.0)
    }
}

} // verus!
