//! The first server: the request that it parses from one read, the handler
//! that the method of the request selects, and the text that goes back.

use crate::response::{formatted, Response};
use crate::string_map::{str_equal, StringMap};
use crate::text::{
    chars_of, find_char, find_from, lemma_lines_of_text, lines, lines_str, lossy_text, split_on,
    split_on_str, split_once, split_once_str, split_whitespace, split_whitespace_str, starts_with,
    starts_with_str, strip_all, strip_all_str, trim, trim_str, utf8_lossy, views,
};
use crate::server::request::{find_with_prefix, first_with_prefix};
use vstd::prelude::*;
use vstd::string::*;

verus! {

/// Request structure.
#[derive(Debug)]
pub struct Request {
    /// The tokens of the first line: method, URL and protocol version.
    pub metod_url_http: Vec<String>,
    /// The cookies of the request.
    pub cookie_files: StringMap,
    /// The `key=value` pairs of the last line.
    pub add_contents: StringMap,
}

/// What a request holds, as mathematical values.
pub ghost struct RequestView {
    pub metod_url_http: Seq<Seq<char>>,
    pub cookie_files: Map<Seq<char>, Seq<char>>,
    pub add_contents: Map<Seq<char>, Seq<char>>,
}

impl View for Request {
    type V = RequestView;

    open spec fn view(&self) -> RequestView {
        RequestView {
            metod_url_http: views(self.metod_url_http@),
            cookie_files: self.cookie_files@,
            add_contents: self.add_contents@,
        }
    }
}

/// The pair that `part` gives, where it holds exactly one `=`: the key
/// before it, as it stands, and the trimmed value behind it.
pub open spec fn pair_of(part: Seq<char>) -> Option<(Seq<char>, Seq<char>)> {
    match split_once(part, '=') {
        Some((k, v)) => if find_char(v, '=') == v.len() {
            Some((k, trim(v)))
        } else {
            None
        },
        None => None,
    }
}

/// `acc` with the pairs of `parts` stored in it, in order.
pub open spec fn pairs_into(parts: Seq<Seq<char>>, acc: Map<Seq<char>, Seq<char>>) -> Map<
    Seq<char>,
    Seq<char>,
>
    decreases parts.len(),
{
    if parts.len() == 0 {
        acc
    } else {
        pairs_into(
            parts.drop_first(),
            match pair_of(parts[0]) {
                Some((k, v)) => acc.insert(k, v),
                None => acc,
            },
        )
    }
}

/// The pairs of `data`, whose parts `sep` separates.
pub open spec fn pairs_of(data: Seq<char>, sep: Seq<char>) -> Map<Seq<char>, Seq<char>> {
    pairs_into(split_on(data, sep), Map::empty())
}

/// What the text `data` parses to.
pub open spec fn parsed(data: Seq<char>) -> RequestView {
    let ls = lines(data);
    let i = first_with_prefix(ls, "Cookie: "@);
    let last = if ls.len() > 0 {
        ls.last()
    } else {
        Seq::empty()
    };
    RequestView {
        metod_url_http: split_whitespace(ls[0]),
        cookie_files: if i < ls.len() {
            pairs_of(strip_all(ls[i], "Cookie: "@), "; "@)
        } else {
            Map::empty()
        },
        add_contents: if !starts_with(last, "Cookie: "@) {
            pairs_of(last, "&"@)
        } else {
            Map::empty()
        },
    }
}

/// The handler that a request is for.
#[derive(Debug, Clone, Copy, PartialEq, Eq, Structural)]
pub enum Route {
    /// `match_get`.
    Get,
    /// `match_post`.
    Post,
    /// `match_put`.
    Put,
    /// No handler: the response stays as it was made.
    Unhandled,
}

/// The handler that the method `method` selects.
pub open spec fn route_of(method: Seq<char>) -> Route {
    if method == "GET"@ {
        Route::Get
    } else if method == "POST"@ {
        Route::Post
    } else if method == "PUT"@ {
        Route::Put
    } else {
        Route::Unhandled
    }
}

impl Request {
    /// The pairs of `data`, whose parts `char_split` separates.
    pub fn get_data(data: &str, char_split: &str) -> (m: StringMap)
        ensures
            m@ == pairs_of(data@, char_split@),
    {
        let parts = split_on_str(data, char_split);
        let mut m = StringMap::new();
        let mut i: usize = 0;
        proof {
            assert(views(parts@).skip(0) =~= views(parts@));
        }
        while i < parts.len()
            invariant
                i <= parts.len(),
                pairs_of(data@, char_split@) == pairs_into(views(parts@).skip(i as int), m@),
            decreases parts.len() - i,
        {
            let ghost rest = views(parts@).skip(i as int);
            proof {
                assert(rest[0] == parts@[i as int]@);
                assert(rest.drop_first() =~= views(parts@).skip(i + 1));
            }
            match split_once_str(parts[i].as_str(), '=') {
                Some((k, v)) => {
                    let rest_chars = chars_of(v);
                    proof {
                        assert(rest_chars@.skip(0) =~= rest_chars@);
                    }
                    if find_from(&rest_chars, 0, '=') == rest_chars.len() {
                        m.insert(String::from_str(k), String::from_str(trim_str(v)));
                    }
                },
                None => {},
            }
            i += 1;
        }
        m
    }

    /// Parses the text of a request: the tokens of its first line, the
    /// cookies of its cookie line, and the pairs of its last line.
    pub fn parse_to_self(data: &str) -> (r: Request)
        requires
            lines(data@).len() > 0,
        ensures
            r@ == parsed(data@),
    {
        let split_line = lines_str(data);
        proof {
            assert(views(split_line@)[0] == split_line@[0]@);
            assert(views(split_line@).last() == split_line@[split_line.len() - 1]@);
        }
        let at = find_with_prefix(&split_line, "Cookie: ");
        let cookie_files = if at < split_line.len() {
            proof {
                assert(views(split_line@)[at as int] == split_line@[at as int]@);
            }
            Request::get_data(strip_all_str(split_line[at].as_str(), "Cookie: "), "; ")
        } else {
            StringMap::new()
        };
        let last_line = split_line[split_line.len() - 1].as_str();
        let add_contents = if !starts_with_str(last_line, "Cookie: ") {
            Request::get_data(last_line, "&")
        } else {
            StringMap::new()
        };
        Request {
            metod_url_http: split_whitespace_str(split_line[0].as_str()),
            cookie_files,
            add_contents,
        }
    }

    /// The handler that this request is for, by its method.
    pub fn route(&self) -> (r: Route)
        requires
            self@.metod_url_http.len() > 0,
        ensures
            r == route_of(self@.metod_url_http[0]),
    {
        proof {
            assert(views(self.metod_url_http@)[0] == self.metod_url_http@[0]@);
        }
        let method = self.metod_url_http[0].as_str();
        if str_equal(method, "GET") {
            Route::Get
        } else if str_equal(method, "POST") {
            Route::Post
        } else if str_equal(method, "PUT") {
            Route::Put
        } else {
            Route::Unhandled
        }
    }
}

/// The decisions of the first server on one connection.
pub struct TcpServer;

impl TcpServer {
    /// The request that the bytes `buffer` of one read hold. There is none
    /// where they hold nothing but whitespace.
    pub fn read_request(buffer: &[u8]) -> (r: Option<Request>)
        ensures
            match r {
                Some(request) => trim(utf8_lossy(buffer@)).len() > 0 && request@ == parsed(
                    trim(utf8_lossy(buffer@)),
                ),
                None => trim(utf8_lossy(buffer@)).len() == 0,
            },
    {
        let text = lossy_text(buffer);
        let trimmed = trim_str(text.as_str());
        if trimmed.is_empty() {
            return None;
        }
        proof {
            lemma_lines_of_text(trimmed@, Seq::empty());
        }
        Some(Request::parse_to_self(trimmed))
    }

    /// The text that is written for `response` to `request`, under the
    /// protocol tag `type_http` or, without one, under the tag of the request.
    pub fn response_text(request: &Request, response: &Response, type_http: Option<&str>) -> (s:
        String)
        requires
            type_http is None ==> request@.metod_url_http.len() > 2,
        ensures
            s@ == formatted(
                response@,
                match type_http {
                    Some(tag) => tag@,
                    None => request@.metod_url_http[2],
                },
            ),
    {
        match type_http {
            Some(tag) => response.format(tag),
            None => {
                proof {
                    assert(views(request.metod_url_http@)[2] == request.metod_url_http@[2]@);
                }
                response.format(request.metod_url_http[2].as_str())
            },
        }
    }
}

} // verus!
