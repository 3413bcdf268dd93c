//! The parts of a URI, as the `http` crate tells them apart.

use vstd::prelude::*;

verus! {

/// A URI in its parts.
#[derive(Debug, Clone)]
pub struct Uri {
    /// What stands before `://`, where the URI has it.
    pub scheme: Option<String>,
    /// The host and what comes with it, such as `user@` and `:8080`.
    pub authority: Option<String>,
    /// The path; empty where the URI has none.
    pub path: String,
    /// What follows `?`, where the URI has it.
    pub query: Option<String>,
}

/// The parts of a URI, as mathematical values.
pub ghost struct UriView {
    pub scheme: Option<Seq<char>>,
    pub authority: Option<Seq<char>>,
    pub path: Seq<char>,
    pub query: Option<Seq<char>>,
}

/// The view of an optional string.
pub open spec fn opt_view(s: Option<String>) -> Option<Seq<char>> {
    match s {
        Some(x) => Some(x@),
        None => None,
    }
}

impl View for Uri {
    type V = UriView;

    open spec fn view(&self) -> UriView {
        UriView {
            scheme: opt_view(self.scheme),
            authority: opt_view(self.authority),
            path: self.path@,
            query: opt_view(self.query),
        }
    }
}

/// The parts that the `http` crate parses the text `s` into, where it takes
/// `s` for a URI.
pub uninterp spec fn uri_parts(s: Seq<char>) -> Option<UriView>;

/// Calls `http::Uri::from_str` and, on the URI that it gives, `scheme`,
/// `authority`, `path` and `query`, whose texts it copies. The error is the
/// crate's own.
#[verifier::external_body]
pub(crate) fn parse_uri(s: &str) -> (r: Result<Uri, http::uri::InvalidUri>)
    ensures
        match r {
            Ok(uri) => uri_parts(s@) == Some(uri@),
            Err(_) => uri_parts(s@) is None,
        },
{
    let parsed: http::Uri = std::str::FromStr::from_str(s)?;
    Ok(
        Uri {
            scheme: parsed.scheme().map(|x| x.as_str().to_string()),
            authority: parsed.authority().map(|x| x.as_str().to_string()),
            path: parsed.path().to_string(),
            query: parsed.query().map(|x| x.to_string()),
        },
    )
}

impl Uri {
    /// Parses `s` as the `http` crate does.
    pub fn parse(s: &str) -> (r: Result<Uri, http::uri::InvalidUri>)
        ensures
            match r {
                Ok(uri) => uri_parts(s@) == Some(uri@),
                Err(_) => uri_parts(s@) is None,
            },
    {
        parse_uri(s)
    }
}

} // verus!
