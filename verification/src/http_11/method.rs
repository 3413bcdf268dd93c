//! Request methods, as the `http` crate accepts them: the registered ones
//! and any other token.

use vstd::prelude::*;

verus! {

/// The request method: a token such as `GET`.
#[derive(Debug, Clone)]
pub struct Method {
    /// The token, as it stood on the request line.
    pub token: String,
}

impl View for Method {
    type V = Seq<char>;

    open spec fn view(&self) -> Seq<char> {
        self.token@
    }
}

/// Whether `c` may stand in a method: a letter, a digit, or one of
/// ``!#$%&'*+-.^_`|~``.
pub open spec fn is_method_char(c: char) -> bool {
    ||| 'a' <= c <= 'z'
    ||| 'A' <= c <= 'Z'
    ||| '0' <= c <= '9'
    ||| c == '!'
    ||| c == '#'
    ||| c == '$'
    ||| c == '%'
    ||| c == '&'
    ||| c == '\''
    ||| c == '*'
    ||| c == '+'
    ||| c == '-'
    ||| c == '.'
    ||| c == '^'
    ||| c == '_'
    ||| c == '`'
    ||| c == '|'
    ||| c == '~'
}

/// Whether `s` is a method: not empty, and made of method characters.
pub open spec fn is_method(s: Seq<char>) -> bool {
    s.len() > 0 && forall|i: int| 0 <= i < s.len() ==> is_method_char(#[trigger] s[i])
}

/// Calls `http::Method::from_str` and copies the text of the method that it
/// gives. The crate accepts exactly the tokens that are not empty and hold
/// method characters only, and the method's text is the token.
#[verifier::external_body]
pub(crate) fn parse_method(s: &str) -> (r: Result<Method, http::method::InvalidMethod>)
    ensures
        match r {
            Ok(m) => is_method(s@) && m@ == s@,
            Err(_) => !is_method(s@),
        },
{
    let parsed: http::Method = std::str::FromStr::from_str(s)?;
    Ok(Method { token: parsed.as_str().to_string() })
}

impl Method {
    /// The method that `s` names.
    pub fn parse(s: &str) -> (r: Result<Method, http::method::InvalidMethod>)
        ensures
            match r {
                Ok(m) => is_method(s@) && m@ == s@,
                Err(_) => !is_method(s@),
            },
    {
        parse_method(s)
    }

    /// The token of this method.
    pub fn as_str(&self) -> (s: &str)
        ensures
            s@ == self@,
    {
        self.token.as_str()
    }
}

} // verus!
