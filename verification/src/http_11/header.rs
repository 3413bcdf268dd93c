//! Header names and values, as the `http` crate accepts them.

use crate::http_11::method::is_method_char;
use crate::text::chars_of;
use vstd::prelude::*;

verus! {

/// Whether `s` is a header name: from one to 65535 characters, each of them
/// a letter, a digit, or one of ``!#$%&'*+-.^_`|~``.
pub open spec fn is_header_name(s: Seq<char>) -> bool {
    1 <= s.len() <= 65535 && forall|i: int| 0 <= i < s.len() ==> is_method_char(#[trigger] s[i])
}

/// Whether `c` may stand in a header value: a tab, or anything from the
/// space on but the delete character.
pub open spec fn is_value_char(c: char) -> bool {
    c == '\t' || (c >= ' ' && c != '\x7f')
}

/// Whether `s` is a header value.
pub open spec fn is_header_value(s: Seq<char>) -> bool {
    forall|i: int| 0 <= i < s.len() ==> is_value_char(#[trigger] s[i])
}

/// Whether `c` is a tab or a printable ASCII character.
pub open spec fn is_visible(c: char) -> bool {
    c == '\t' || (' ' <= c < '\x7f')
}

/// Whether `s` holds tabs and printable ASCII characters only: such a header
/// value can be read as text.
pub open spec fn is_readable(s: Seq<char>) -> bool {
    forall|i: int| 0 <= i < s.len() ==> is_visible(#[trigger] s[i])
}

/// Calls `http::header::HeaderName::from_str`, which accepts a text exactly
/// where it holds from one to 65535 bytes, each of them a header name
/// character. Such a text holds one byte for each character.
#[verifier::external_body]
pub(crate) fn check_header_name(s: &str) -> (r: Result<(), http::header::InvalidHeaderName>)
    ensures
        r is Ok <==> is_header_name(s@),
{
    let parsed: Result<http::header::HeaderName, _> = std::str::FromStr::from_str(s);
    parsed.map(|_| ())
}

/// Calls `http::header::HeaderValue::from_str`, which accepts a text exactly
/// where each of its bytes is a tab, or at least 32 and not 127. The bytes of
/// a character beyond ASCII are all above 127.
#[verifier::external_body]
pub(crate) fn check_header_value(s: &str) -> (r: Result<(), http::header::InvalidHeaderValue>)
    ensures
        r is Ok <==> is_header_value(s@),
{
    http::header::HeaderValue::from_str(s).map(|_| ())
}

/// Whether `s` can be read as text.
pub fn readable(s: &str) -> (b: bool)
    ensures
        b == is_readable(s@),
{
    let v = chars_of(s);
    let mut i: usize = 0;
    while i < v.len()
        invariant
            v@ == s@,
            i <= v.len(),
            forall|j: int| 0 <= j < i ==> is_visible(#[trigger] v@[j]),
        decreases v.len() - i,
    {
        let c = v[i];
        if !(c == '\t' || (' ' <= c && c < '\x7f')) {
            return false;
        }
        i += 1;
    }
    true
}

} // verus!
