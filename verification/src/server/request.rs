//! The request of the thread-based server, parsed from the text that one read
//! of the stream gave.

use crate::string_map::StringMap;
use crate::text::{
    lines, lines_str, split_on, split_on_str, split_once, split_once_str, split_whitespace,
    split_whitespace_str, starts_with, starts_with_str, strip_all, strip_all_str, trim, trim_str,
    views,
};
use vstd::prelude::*;
use vstd::string::*;

verus! {

/// Request structure.
#[derive(Debug, Clone)]
pub struct Request {
    /// The tokens of the first line: method, URL and protocol version.
    pub metod_url_http: Vec<String>,
    /// The cookies of the request.
    pub cookie: StringMap,
    /// The `key=value` pairs of the last line.
    pub add_content: StringMap,
}

/// What a request holds, as mathematical values.
pub ghost struct RequestView {
    pub metod_url_http: Seq<Seq<char>>,
    pub cookie: Map<Seq<char>, Seq<char>>,
    pub add_content: Map<Seq<char>, Seq<char>>,
}

impl View for Request {
    type V = RequestView;

    open spec fn view(&self) -> RequestView {
        RequestView {
            metod_url_http: views(self.metod_url_http@),
            cookie: self.cookie@,
            add_content: self.add_content@,
        }
    }
}

/// The pair that `part` gives: the key stands before its first `=`, the
/// value behind it; a part without `=` is a key with an empty value. Both are
/// trimmed.
pub open spec fn pair_of(part: Seq<char>) -> (Seq<char>, Seq<char>) {
    match split_once(part, '=') {
        Some((k, v)) => (trim(k), trim(v)),
        None => (trim(part), Seq::empty()),
    }
}

/// `acc` with the pairs of `parts` stored in it, in order.
pub open spec fn pairs_into(parts: Seq<Seq<char>>, acc: Map<Seq<char>, Seq<char>>) -> Map<
    Seq<char>,
    Seq<char>,
>
    decreases parts.len(),
{
    if parts.len() == 0 {
        acc
    } else {
        pairs_into(parts.drop_first(), acc.insert(pair_of(parts[0]).0, pair_of(parts[0]).1))
    }
}

/// The pairs of `data`, whose parts `sep` separates.
pub open spec fn pairs_of(data: Seq<char>, sep: Seq<char>) -> Map<Seq<char>, Seq<char>> {
    pairs_into(split_on(data, sep), Map::empty())
}

/// The index of the first line of `ls` that begins with `prefix`, or the
/// number of lines where none does.
pub open spec fn first_with_prefix(ls: Seq<Seq<char>>, prefix: Seq<char>) -> int
    decreases ls.len(),
{
    if ls.len() == 0 {
        0
    } else if starts_with(ls[0], prefix) {
        0
    } else {
        1 + first_with_prefix(ls.drop_first(), prefix)
    }
}

/// The cookies of the lines `ls`: those of the first line that begins with
/// `Cookie: `, without that beginning, as often as it is repeated.
pub open spec fn cookies_of(ls: Seq<Seq<char>>) -> Map<Seq<char>, Seq<char>> {
    let i = first_with_prefix(ls, "Cookie: "@);
    if i < ls.len() {
        pairs_of(strip_all(ls[i], "Cookie: "@), "; "@)
    } else {
        Map::empty()
    }
}

/// The pairs of the last line of `ls`, unless that line holds the cookies or
/// the accepted languages.
pub open spec fn content_of(ls: Seq<Seq<char>>) -> Map<Seq<char>, Seq<char>> {
    let last = if ls.len() > 0 {
        ls.last()
    } else {
        Seq::empty()
    };
    if !starts_with(last, "Cookie: "@) && !starts_with(last, "Accept-Language: "@) {
        pairs_of(last, "&"@)
    } else {
        Map::empty()
    }
}

/// What the text `data` parses to.
pub open spec fn parsed(data: Seq<char>) -> RequestView {
    RequestView {
        metod_url_http: split_whitespace(lines(data)[0]),
        cookie: cookies_of(lines(data)),
        add_content: content_of(lines(data)),
    }
}

/// The index of the first of `ls` that begins with `prefix`.
pub fn find_with_prefix(ls: &Vec<String>, prefix: &str) -> (i: usize)
    ensures
        i == first_with_prefix(views(ls@), prefix@),
        i <= ls.len(),
{
    let mut i: usize = 0;
    proof {
        assert(views(ls@).skip(0) =~= views(ls@));
    }
    while i < ls.len()
        invariant
            i <= ls.len(),
            first_with_prefix(views(ls@), prefix@) == i + first_with_prefix(
                views(ls@).skip(i as int),
                prefix@,
            ),
        decreases ls.len() - i,
    {
        let ghost rest = views(ls@).skip(i as int);
        proof {
            assert(rest[0] == ls@[i as int]@);
            assert(rest.drop_first() =~= views(ls@).skip(i + 1));
        }
        if starts_with_str(ls[i].as_str(), prefix) {
            return i;
        }
        i += 1;
    }
    i
}

impl Request {
    /// The pairs of `data`, whose parts `char_split` separates.
    pub fn get_data(data: &str, char_split: &str) -> (m: StringMap)
        ensures
            m@ == pairs_of(data@, char_split@),
    {
        let parts = split_on_str(data, char_split);
        let mut m = StringMap::new();
        let mut i: usize = 0;
        proof {
            assert(views(parts@).skip(0) =~= views(parts@));
        }
        while i < parts.len()
            invariant
                i <= parts.len(),
                pairs_of(data@, char_split@) == pairs_into(views(parts@).skip(i as int), m@),
            decreases parts.len() - i,
        {
            let ghost rest = views(parts@).skip(i as int);
            proof {
                assert(rest[0] == parts@[i as int]@);
                assert(rest.drop_first() =~= views(parts@).skip(i + 1));
            }
            match split_once_str(parts[i].as_str(), '=') {
                Some((k, v)) => {
                    m.insert(String::from_str(trim_str(k)), String::from_str(trim_str(v)));
                },
                None => {
                    m.insert(String::from_str(trim_str(parts[i].as_str())), String::new());
                },
            }
            i += 1;
        }
        m
    }

    /// Parses the text of a request: the tokens of its first line, the
    /// cookies of its cookie line, and the pairs of its last line.
    pub fn parse_to_self(data: &str) -> (r: Request)
        requires
            lines(data@).len() > 0,
        ensures
            r@ == parsed(data@),
    {
        let split_line = lines_str(data);
        proof {
            assert(views(split_line@)[0] == split_line@[0]@);
            assert(views(split_line@).last() == split_line@[split_line.len() - 1]@);
        }
        let at = find_with_prefix(&split_line, "Cookie: ");
        let cookie = if at < split_line.len() {
            proof {
                assert(views(split_line@)[at as int] == split_line@[at as int]@);
            }
            Request::get_data(strip_all_str(split_line[at].as_str(), "Cookie: "), "; ")
        } else {
            StringMap::new()
        };
        let last_line = split_line[split_line.len() - 1].as_str();
        let add_content = if !starts_with_str(last_line, "Cookie: ") && !starts_with_str(
            last_line,
            "Accept-Language: ",
        ) {
            Request::get_data(last_line, "&")
        } else {
            StringMap::new()
        };
        Request {
            metod_url_http: split_whitespace_str(split_line[0].as_str()),
            cookie,
            add_content,
        }
    }
}

} // verus!
