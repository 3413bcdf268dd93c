//! Text primitives shared by the request parsers: whitespace, trimming and
//! splitting, each an executable function proved against a definition over
//! sequences of characters.

use vstd::prelude::*;
use vstd::string::*;

verus! {

/// Whether `c` is whitespace as Unicode defines it (`White_Space`).
pub open spec fn is_whitespace(c: char) -> bool {
    let n = c as u32;
    ||| 9 <= n <= 13
    ||| n == 0x20
    ||| n == 0x85
    ||| n == 0xA0
    ||| n == 0x1680
    ||| 0x2000 <= n <= 0x200A
    ||| n == 0x2028
    ||| n == 0x2029
    ||| n == 0x202F
    ||| n == 0x205F
    ||| n == 0x3000
}

/// `s` without its leading whitespace.
pub open spec fn trim_start(s: Seq<char>) -> Seq<char>
    decreases s.len(),
{
    if s.len() > 0 && is_whitespace(s[0]) {
        trim_start(s.drop_first())
    } else {
        s
    }
}

/// `s` without its trailing whitespace.
pub open spec fn trim_end(s: Seq<char>) -> Seq<char>
    decreases s.len(),
{
    if s.len() > 0 && is_whitespace(s.last()) {
        trim_end(s.drop_last())
    } else {
        s
    }
}

/// `s` without leading and trailing whitespace.
pub open spec fn trim(s: Seq<char>) -> Seq<char> {
    trim_end(trim_start(s))
}

/// The index of the first `c` in `s`, or `s.len()` where there is none.
pub open spec fn find_char(s: Seq<char>, c: char) -> int
    decreases s.len(),
{
    if s.len() == 0 {
        0
    } else if s[0] == c {
        0
    } else {
        1 + find_char(s.drop_first(), c)
    }
}

/// The two sides of the first `c` in `s`, where there is one.
pub open spec fn split_once(s: Seq<char>, c: char) -> Option<(Seq<char>, Seq<char>)> {
    let k = find_char(s, c);
    if k < s.len() {
        Some((s.take(k), s.skip(k + 1)))
    } else {
        None
    }
}

/// Whether `s` begins with `prefix`.
pub open spec fn starts_with(s: Seq<char>, prefix: Seq<char>) -> bool {
    prefix.len() <= s.len() && s.take(prefix.len() as int) == prefix
}

pub proof fn lemma_find_char_bounds(s: Seq<char>, c: char)
    ensures
        0 <= find_char(s, c) <= s.len(),
        find_char(s, c) < s.len() ==> s[find_char(s, c)] == c,
        forall|i: int| 0 <= i < find_char(s, c) ==> s[i] != c,
    decreases s.len(),
{
    if s.len() > 0 && s[0] != c {
        let t = s.drop_first();
        lemma_find_char_bounds(t, c);
        assert forall|i: int| 0 <= i < find_char(s, c) implies s[i] != c by {
            if i > 0 {
                assert(s[i] == t[i - 1]);
            }
        }
    }
}

/// The first index at which `c` stands is `find_char`, whatever lies behind it.
pub proof fn lemma_find_char_is(s: Seq<char>, c: char, k: int)
    requires
        0 <= k <= s.len(),
        forall|i: int| 0 <= i < k ==> s[i] != c,
        k < s.len() ==> s[k] == c,
    ensures
        find_char(s, c) == k,
{
    lemma_find_char_bounds(s, c);
}

pub proof fn lemma_trim_start_skip(s: Seq<char>, k: int)
    requires
        0 <= k <= s.len(),
        forall|i: int| 0 <= i < k ==> is_whitespace(s[i]),
    ensures
        trim_start(s) == trim_start(s.skip(k)),
    decreases k,
{
    if k > 0 {
        let t = s.drop_first();
        assert(t.skip(k - 1) =~= s.skip(k));
        assert forall|i: int| 0 <= i < k - 1 implies is_whitespace(t[i]) by {
            assert(t[i] == s[i + 1]);
        }
        lemma_trim_start_skip(t, k - 1);
    } else {
        assert(s.skip(0) =~= s);
    }
}

pub proof fn lemma_trim_end_take(s: Seq<char>, k: int)
    requires
        0 <= k <= s.len(),
        forall|i: int| k <= i < s.len() ==> is_whitespace(s[i]),
    ensures
        trim_end(s) == trim_end(s.take(k)),
    decreases s.len() - k,
{
    if k < s.len() {
        let t = s.drop_last();
        assert(t.take(k) =~= s.take(k));
        lemma_trim_end_take(t, k);
    } else {
        assert(s.take(k) =~= s);
    }
}

/// The characters of `s`, in order.
pub fn chars_of(s: &str) -> (v: Vec<char>)
    ensures
        v@ == s@,
{
    let mut v: Vec<char> = Vec::new();
    for c in it: s.chars()
        invariant
            v@ == it.seq().take(it.index() as int),
            it.seq() == s@,
    {
        v.push(c);
    }
    v
}

/// Whether `c` is whitespace.
pub fn is_space(c: char) -> (b: bool)
    ensures
        b == is_whitespace(c),
{
    let n: u32 = c as u32;
    (9 <= n && n <= 13) || n == 0x20 || n == 0x85 || n == 0xA0 || n == 0x1680 || (0x2000 <= n && n
        <= 0x200A) || n == 0x2028 || n == 0x2029 || n == 0x202F || n == 0x205F || n == 0x3000
}

/// The number of whitespace characters that `v` begins with.
pub fn leading_space(v: &Vec<char>) -> (k: usize)
    ensures
        k <= v.len(),
        trim_start(v@) == v@.skip(k as int),
{
    let mut k: usize = 0;
    while k < v.len() && is_space(v[k])
        invariant
            k <= v.len(),
            forall|i: int| 0 <= i < k ==> is_whitespace(v@[i]),
        decreases v.len() - k,
    {
        k += 1;
    }
    proof {
        lemma_trim_start_skip(v@, k as int);
    }
    k
}

/// The end of what is left of `v[from..]` when its trailing whitespace goes.
pub fn trailing_space(v: &Vec<char>, from: usize) -> (k: usize)
    requires
        from <= v.len(),
    ensures
        from <= k <= v.len(),
        trim_end(v@.skip(from as int)) == v@.subrange(from as int, k as int),
{
    let mut k: usize = v.len();
    while k > from && is_space(v[k - 1])
        invariant
            from <= k <= v.len(),
            forall|i: int| k <= i < v.len() ==> is_whitespace(v@[i]),
        decreases k,
    {
        k -= 1;
    }
    proof {
        let t = v@.skip(from as int);
        assert forall|i: int| k - from <= i < t.len() implies is_whitespace(t[i]) by {
            assert(t[i] == v@[i + from]);
        }
        lemma_trim_end_take(t, k - from);
        assert(t.take(k - from) =~= v@.subrange(from as int, k as int));
        let u = v@.subrange(from as int, k as int);
        if u.len() > 0 {
            assert(u.last() == v@[k - 1]);
        }
    }
    k
}

/// `s` without leading and trailing whitespace.
pub fn trim_str<'a>(s: &'a str) -> (r: &'a str)
    ensures
        r@ == trim(s@),
{
    let v = chars_of(s);
    let a = leading_space(&v);
    let b = trailing_space(&v, a);
    s.substring_char(a, b)
}

/// `s` without trailing whitespace.
pub fn trim_end_str<'a>(s: &'a str) -> (r: &'a str)
    ensures
        r@ == trim_end(s@),
{
    let v = chars_of(s);
    let b = trailing_space(&v, 0);
    proof {
        assert(v@.skip(0) =~= v@);
    }
    s.substring_char(0, b)
}

/// The index of the first `c` in `v[from..]`, counted from `from`.
pub fn find_from(v: &Vec<char>, from: usize, c: char) -> (k: usize)
    requires
        from <= v.len(),
    ensures
        from <= k <= v.len(),
        k - from == find_char(v@.skip(from as int), c),
{
    let mut k: usize = from;
    while k < v.len() && v[k] != c
        invariant
            from <= k <= v.len(),
            forall|i: int| from <= i < k ==> v@[i] != c,
        decreases v.len() - k,
    {
        k += 1;
    }
    proof {
        let t = v@.skip(from as int);
        assert forall|i: int| 0 <= i < k - from implies t[i] != c by {
            assert(t[i] == v@[i + from]);
        }
        lemma_find_char_is(t, c, k - from);
    }
    k
}

/// The two sides of the first `c` in `s`, where there is one.
pub fn split_once_str<'a>(s: &'a str, c: char) -> (r: Option<(&'a str, &'a str)>)
    ensures
        match r {
            Some((a, b)) => split_once(s@, c) == Some((a@, b@)),
            None => split_once(s@, c) is None,
        },
{
    let v = chars_of(s);
    let k = find_from(&v, 0, c);
    proof {
        assert(v@.skip(0) =~= v@);
    }
    if k < v.len() {
        let a = s.substring_char(0, k);
        let b = s.substring_char(k + 1, v.len());
        proof {
            assert(s@.subrange(0, k as int) =~= s@.take(k as int));
            assert(s@.subrange(k + 1, v.len() as int) =~= s@.skip(k + 1));
        }
        Some((a, b))
    } else {
        None
    }
}

/// Whether `v[from..]` begins with `prefix`.
pub fn starts_with_at(v: &Vec<char>, from: usize, prefix: &Vec<char>) -> (b: bool)
    requires
        from <= v.len(),
    ensures
        b == starts_with(v@.skip(from as int), prefix@),
{
    if prefix.len() > v.len() - from {
        return false;
    }
    let mut i: usize = 0;
    while i < prefix.len()
        invariant
            from <= v.len(),
            i <= prefix.len() <= v.len() - from,
            forall|j: int| 0 <= j < i ==> v@[from + j] == prefix@[j],
        decreases prefix.len() - i,
    {
        if v[from + i] != prefix[i] {
            proof {
                let t = v@.skip(from as int).take(prefix.len() as int);
                assert(t[i as int] == v@[from + i]);
            }
            return false;
        }
        i += 1;
    }
    proof {
        assert(v@.skip(from as int).take(prefix.len() as int) =~= prefix@);
    }
    true
}

/// Whether `s` begins with `prefix`.
pub fn starts_with_str(s: &str, prefix: &str) -> (b: bool)
    ensures
        b == starts_with(s@, prefix@),
{
    let v = chars_of(s);
    let p = chars_of(prefix);
    proof {
        assert(v@.skip(0) =~= v@);
    }
    starts_with_at(&v, 0, &p)
}

/// The view of each string of `v`, in order.
pub open spec fn views(v: Seq<String>) -> Seq<Seq<char>> {
    Seq::new(v.len(), |i: int| v[i]@)
}

/// `seq![cur]` where `cur` holds a character, else nothing.
pub open spec fn word_if_any(cur: Seq<char>) -> Seq<Seq<char>> {
    if cur.len() > 0 {
        seq![cur]
    } else {
        Seq::empty()
    }
}

/// The words of `s` that follow an unfinished word `cur`.
pub open spec fn words_after(s: Seq<char>, cur: Seq<char>) -> Seq<Seq<char>>
    decreases s.len(),
{
    if s.len() == 0 {
        word_if_any(cur)
    } else if is_whitespace(s[0]) {
        word_if_any(cur) + words_after(s.drop_first(), Seq::empty())
    } else {
        words_after(s.drop_first(), cur.push(s[0]))
    }
}

/// The maximal runs of characters of `s` that are not whitespace, in order.
pub open spec fn split_whitespace(s: Seq<char>) -> Seq<Seq<char>> {
    words_after(s, Seq::empty())
}

/// The pieces of `s` between occurrences of `sep` that follow an unfinished
/// piece `cur`. Occurrences are taken leftmost first and do not overlap.
pub open spec fn pieces_after(s: Seq<char>, sep: Seq<char>, cur: Seq<char>) -> Seq<Seq<char>>
    decreases s.len(),
{
    if s.len() == 0 {
        seq![cur]
    } else if sep.len() > 0 && starts_with(s, sep) {
        seq![cur] + pieces_after(s.skip(sep.len() as int), sep, Seq::empty())
    } else {
        pieces_after(s.drop_first(), sep, cur.push(s[0]))
    }
}

/// Each character of `s` as a piece of its own.
pub open spec fn single_chars(s: Seq<char>) -> Seq<Seq<char>> {
    Seq::new(s.len(), |i: int| seq![s[i]])
}

/// The pieces of `s` between occurrences of `sep`: one more than there are
/// occurrences, so at least one. An empty `sep` occurs before each character
/// and at the end: the pieces are then an empty one, each character, and an
/// empty one.
pub open spec fn split_on(s: Seq<char>, sep: Seq<char>) -> Seq<Seq<char>> {
    if sep.len() == 0 {
        seq![Seq::empty()] + single_chars(s) + seq![Seq::empty()]
    } else {
        pieces_after(s, sep, Seq::empty())
    }
}

/// `l` without one trailing carriage return.
pub open spec fn strip_cr(l: Seq<char>) -> Seq<char> {
    if l.len() > 0 && l.last() == '\r' {
        l.drop_last()
    } else {
        l
    }
}

/// The lines of `s` that follow an unfinished line `cur`.
pub open spec fn lines_after(s: Seq<char>, cur: Seq<char>) -> Seq<Seq<char>>
    decreases s.len(),
{
    if s.len() == 0 {
        word_if_any(cur)
    } else if s[0] == '\n' {
        seq![strip_cr(cur)] + lines_after(s.drop_first(), Seq::empty())
    } else {
        lines_after(s.drop_first(), cur.push(s[0]))
    }
}

/// The lines of `s`: each ends at a line feed, which is dropped together with
/// a carriage return before it; a last line without a line feed is kept as it
/// is, unless it is empty.
pub open spec fn lines(s: Seq<char>) -> Seq<Seq<char>> {
    lines_after(s, Seq::empty())
}

/// A copy of the characters `from..to` of `s`.
pub fn piece(s: &str, from: usize, to: usize) -> (r: String)
    requires
        from <= to <= s@.len(),
    ensures
        r@ == s@.subrange(from as int, to as int),
{
    String::from_str(s.substring_char(from, to))
}

/// The maximal runs of characters of `s` that are not whitespace, in order.
pub fn split_whitespace_str(s: &str) -> (out: Vec<String>)
    ensures
        views(out@) == split_whitespace(s@),
{
    let v = chars_of(s);
    let mut out: Vec<String> = Vec::new();
    let mut start: usize = 0;
    let mut i: usize = 0;
    proof {
        assert(v@.skip(0) =~= v@);
        assert(v@.subrange(0, 0) =~= Seq::<char>::empty());
        assert(views(out@) =~= Seq::<Seq<char>>::empty());
    }
    while i < v.len()
        invariant
            v@ == s@,
            start <= i <= v.len(),
            split_whitespace(s@) == views(out@) + words_after(
                v@.skip(i as int),
                v@.subrange(start as int, i as int),
            ),
        decreases v.len() - i,
    {
        let ghost rest = v@.skip(i as int);
        let ghost cur = v@.subrange(start as int, i as int);
        let ghost before = views(out@);
        proof {
            assert(rest[0] == v@[i as int]);
            assert(rest.drop_first() =~= v@.skip(i + 1));
        }
        if is_space(v[i]) {
            if start < i {
                let w = piece(s, start, i);
                out.push(w);
                proof {
                    assert(views(out@) =~= before + seq![cur]);
                }
            }
            start = i + 1;
            proof {
                assert(v@.subrange(start as int, i + 1) =~= Seq::<char>::empty());
                assert(before + (word_if_any(cur) + words_after(rest.drop_first(), Seq::empty()))
                    =~= (before + word_if_any(cur)) + words_after(
                    rest.drop_first(),
                    Seq::empty(),
                ));
                assert(before + word_if_any(cur) =~= views(out@));
            }
        } else {
            proof {
                assert(cur.push(rest[0]) =~= v@.subrange(start as int, i + 1));
            }
        }
        i += 1;
    }
    let ghost cur = v@.subrange(start as int, i as int);
    let ghost before = views(out@);
    if start < i {
        let w = piece(s, start, i);
        out.push(w);
        proof {
            assert(views(out@) =~= before + seq![cur]);
        }
    }
    proof {
        assert(before + word_if_any(cur) =~= views(out@));
    }
    out
}

/// The pieces of `s` between occurrences of `sep`.
pub fn split_on_str(s: &str, sep: &str) -> (out: Vec<String>)
    ensures
        views(out@) == split_on(s@, sep@),
        out.len() >= 1,
{
    let p = chars_of(sep);
    split_on_chars(s, &p)
}

/// The pieces of `s` between occurrences of the characters `p`.
pub fn split_on_chars(s: &str, p: &Vec<char>) -> (out: Vec<String>)
    ensures
        views(out@) == split_on(s@, p@),
        out.len() >= 1,
{
    let v = chars_of(s);
    let mut out: Vec<String> = Vec::new();
    if p.len() == 0 {
        out.push(String::new());
        let mut k: usize = 0;
        proof {
            assert(views(out@) =~= seq![Seq::<char>::empty()] + single_chars(s@.take(0)));
        }
        while k < v.len()
            invariant
                v@ == s@,
                k <= v.len(),
                views(out@) == seq![Seq::<char>::empty()] + single_chars(s@.take(k as int)),
            decreases v.len() - k,
        {
            let ghost before = views(out@);
            let w = piece(s, k, k + 1);
            out.push(w);
            proof {
                assert(s@.subrange(k as int, k + 1) =~= seq![s@[k as int]]);
                assert(views(out@) =~= before.push(seq![s@[k as int]]));
                assert(single_chars(s@.take(k + 1)) =~= single_chars(s@.take(k as int)).push(
                    seq![s@[k as int]],
                ));
                assert(views(out@) =~= seq![Seq::<char>::empty()] + single_chars(
                    s@.take(k + 1),
                ));
            }
            k += 1;
        }
        let ghost before = views(out@);
        out.push(String::new());
        proof {
            assert(s@.take(v.len() as int) =~= s@);
            assert(views(out@) =~= before.push(Seq::<char>::empty()));
            assert(views(out@) =~= split_on(s@, p@));
        }
        return out;
    }
    let mut start: usize = 0;
    let mut i: usize = 0;
    proof {
        assert(v@.skip(0) =~= v@);
        assert(v@.subrange(0, 0) =~= Seq::<char>::empty());
        assert(views(out@) =~= Seq::<Seq<char>>::empty());
    }
    while i < v.len()
        invariant
            v@ == s@,
            p.len() > 0,
            start <= i <= v.len(),
            split_on(s@, p@) == views(out@) + pieces_after(
                v@.skip(i as int),
                p@,
                v@.subrange(start as int, i as int),
            ),
        decreases v.len() - i,
    {
        let ghost rest = v@.skip(i as int);
        let ghost cur = v@.subrange(start as int, i as int);
        let ghost before = views(out@);
        if starts_with_at(&v, i, p) {
            let w = piece(s, start, i);
            out.push(w);
            proof {
                assert(views(out@) =~= before + seq![cur]);
                assert(rest.skip(p.len() as int) =~= v@.skip(i + p.len()));
                assert(v@.subrange(i + p.len(), i + p.len()) =~= Seq::<char>::empty());
                assert(before + (seq![cur] + pieces_after(
                    rest.skip(p.len() as int),
                    p@,
                    Seq::empty(),
                )) =~= (before + seq![cur]) + pieces_after(
                    rest.skip(p.len() as int),
                    p@,
                    Seq::empty(),
                ));
            }
            i += p.len();
            start = i;
        } else {
            proof {
                assert(rest[0] == v@[i as int]);
                assert(rest.drop_first() =~= v@.skip(i + 1));
                assert(cur.push(rest[0]) =~= v@.subrange(start as int, i + 1));
            }
            i += 1;
        }
    }
    let ghost cur = v@.subrange(start as int, i as int);
    let ghost before = views(out@);
    let w = piece(s, start, i);
    out.push(w);
    proof {
        assert(views(out@) =~= before + seq![cur]);
    }
    out
}

/// The lines of `s`.
pub fn lines_str(s: &str) -> (out: Vec<String>)
    ensures
        views(out@) == lines(s@),
{
    let v = chars_of(s);
    let mut out: Vec<String> = Vec::new();
    let mut start: usize = 0;
    let mut i: usize = 0;
    proof {
        assert(v@.skip(0) =~= v@);
        assert(v@.subrange(0, 0) =~= Seq::<char>::empty());
        assert(views(out@) =~= Seq::<Seq<char>>::empty());
    }
    while i < v.len()
        invariant
            v@ == s@,
            start <= i <= v.len(),
            lines(s@) == views(out@) + lines_after(
                v@.skip(i as int),
                v@.subrange(start as int, i as int),
            ),
        decreases v.len() - i,
    {
        let ghost rest = v@.skip(i as int);
        let ghost cur = v@.subrange(start as int, i as int);
        let ghost before = views(out@);
        proof {
            assert(rest[0] == v@[i as int]);
            assert(rest.drop_first() =~= v@.skip(i + 1));
        }
        if v[i] == '\n' {
            let end: usize = if start < i && v[i - 1] == '\r' {
                i - 1
            } else {
                i
            };
            let w = piece(s, start, end);
            out.push(w);
            proof {
                if cur.len() > 0 {
                    assert(cur.last() == v@[i - 1]);
                }
                assert(strip_cr(cur) =~= v@.subrange(start as int, end as int));
                assert(views(out@) =~= before + seq![strip_cr(cur)]);
                assert(v@.subrange(i + 1, i + 1) =~= Seq::<char>::empty());
                assert(before + (seq![strip_cr(cur)] + lines_after(
                    rest.drop_first(),
                    Seq::empty(),
                )) =~= (before + seq![strip_cr(cur)]) + lines_after(
                    rest.drop_first(),
                    Seq::empty(),
                ));
            }
            start = i + 1;
        } else {
            proof {
                assert(cur.push(rest[0]) =~= v@.subrange(start as int, i + 1));
            }
        }
        i += 1;
    }
    let ghost cur = v@.subrange(start as int, i as int);
    let ghost before = views(out@);
    if start < i {
        let w = piece(s, start, i);
        out.push(w);
        proof {
            assert(views(out@) =~= before + seq![cur]);
        }
    }
    proof {
        assert(before + word_if_any(cur) =~= views(out@));
    }
    out
}

/// Whether `c` is one of the digits `0` to `9`.
pub open spec fn is_digit(c: char) -> bool {
    '0' <= c <= '9'
}

/// Whether every character of `s` is a digit.
pub open spec fn all_digits(s: Seq<char>) -> bool {
    forall|i: int| 0 <= i < s.len() ==> is_digit(#[trigger] s[i])
}

/// The number that the digits `s` write in base ten.
pub open spec fn digits_value(s: Seq<char>) -> nat
    decreases s.len(),
{
    if s.len() == 0 {
        0
    } else {
        (digits_value(s.drop_last()) * 10 + (s.last() as u32 - '0' as u32)) as nat
    }
}

/// `s` without one leading plus sign.
pub open spec fn unsigned_part(s: Seq<char>) -> Seq<char> {
    if s.len() > 0 && s[0] == '+' {
        s.drop_first()
    } else {
        s
    }
}

/// The number that `s` writes: an optional plus sign, then one digit or
/// more, of a value that fits in `usize`.
pub open spec fn parse_usize(s: Seq<char>) -> Option<usize> {
    let d = unsigned_part(s);
    if d.len() > 0 && all_digits(d) && digits_value(d) <= usize::MAX {
        Some(digits_value(d) as usize)
    } else {
        None
    }
}

pub proof fn lemma_digits_value_grows(s: Seq<char>, k: int)
    requires
        0 <= k <= s.len(),
        all_digits(s),
    ensures
        digits_value(s.take(k)) <= digits_value(s),
    decreases s.len() - k,
{
    if k < s.len() {
        let t = s.drop_last();
        assert(t.take(k) =~= s.take(k));
        assert(is_digit(s[s.len() - 1]));
        assert forall|i: int| 0 <= i < t.len() implies is_digit(#[trigger] t[i]) by {
            assert(t[i] == s[i]);
        }
        lemma_digits_value_grows(t, k);
    } else {
        assert(s.take(k) =~= s);
    }
}

/// The number that `s` writes, where it writes one that fits in `usize`.
pub fn parse_usize_str(s: &str) -> (r: Option<usize>)
    ensures
        r == parse_usize(s@),
{
    let v = chars_of(s);
    let from: usize = if v.len() > 0 && v[0] == '+' {
        1
    } else {
        0
    };
    if from == v.len() {
        return None;
    }
    let ghost d = v@.skip(from as int);
    proof {
        assert(d =~= unsigned_part(s@));
    }
    let mut value: usize = 0;
    let mut i: usize = from;
    while i < v.len()
        invariant
            from <= i <= v.len(),
            from < v.len(),
            d == v@.skip(from as int),
            d == unsigned_part(s@),
            all_digits(d.take(i - from)),
            value == digits_value(d.take(i - from)),
        decreases v.len() - i,
    {
        let c = v[i];
        let ghost next = d.take(i + 1 - from);
        proof {
            assert(next.drop_last() =~= d.take(i - from));
            assert(next.last() == c);
        }
        if !('0' <= c && c <= '9') {
            proof {
                assert(d[i - from] == c);
            }
            return None;
        }
        proof {
            assert forall|j: int| 0 <= j < next.len() implies is_digit(#[trigger] next[j]) by {
                if j < i - from {
                    assert(next[j] == d.take(i - from)[j]);
                }
            }
        }
        let digit: usize = (c as u32 - '0' as u32) as usize;
        let grown = match value.checked_mul(10) {
            Some(m) => m.checked_add(digit),
            None => None,
        };
        match grown {
            Some(g) => {
                value = g;
            },
            None => {
                proof {
                    assert(digits_value(next) > usize::MAX);
                    if all_digits(d) {
                        lemma_digits_value_grows(d, i + 1 - from);
                    }
                }
                return None;
            },
        }
        i += 1;
    }
    proof {
        assert(d.take(i - from) =~= d);
    }
    Some(value)
}

/// `s` without `prefix` at its beginning, as often as it is repeated there.
pub open spec fn strip_all(s: Seq<char>, prefix: Seq<char>) -> Seq<char>
    decreases s.len(),
{
    if prefix.len() > 0 && starts_with(s, prefix) {
        strip_all(s.skip(prefix.len() as int), prefix)
    } else {
        s
    }
}

/// `s` without `prefix` at its beginning, as often as it is repeated there.
pub fn strip_all_str<'a>(s: &'a str, prefix: &str) -> (r: &'a str)
    ensures
        r@ == strip_all(s@, prefix@),
{
    let v = chars_of(s);
    let p = chars_of(prefix);
    let mut k: usize = 0;
    proof {
        assert(v@.skip(0) =~= v@);
    }
    if p.len() > 0 {
        while starts_with_at(&v, k, &p)
            invariant
                p.len() > 0,
                p@ == prefix@,
                v@ == s@,
                k <= v.len(),
                strip_all(s@, prefix@) == strip_all(v@.skip(k as int), prefix@),
            decreases v.len() - k,
        {
            proof {
                assert(v@.skip(k as int).skip(p.len() as int) =~= v@.skip(k + p.len()));
            }
            k += p.len();
        }
    }
    proof {
        assert(s@.subrange(k as int, v.len() as int) =~= v@.skip(k as int));
    }
    s.substring_char(k, v.len())
}

/// The text that `String::from_utf8_lossy` makes of `bytes`: their decoding
/// as UTF-8, with a replacement character for what is not valid.
pub uninterp spec fn utf8_lossy(bytes: Seq<u8>) -> Seq<char>;

/// Calls `String::from_utf8_lossy` and copies the text that it gives.
#[verifier::external_body]
pub(crate) fn lossy_text(bytes: &[u8]) -> (s: String)
    ensures
        s@ == utf8_lossy(bytes@),
{
    String::from_utf8_lossy(bytes).to_string()
}

/// A text that is not empty has a line.
pub proof fn lemma_lines_of_text(s: Seq<char>, cur: Seq<char>)
    requires
        s.len() > 0 || cur.len() > 0,
    ensures
        lines_after(s, cur).len() > 0,
    decreases s.len(),
{
    if s.len() > 0 && s[0] != '\n' {
        lemma_lines_of_text(s.drop_first(), cur.push(s[0]));
    }
}

} // verus!
