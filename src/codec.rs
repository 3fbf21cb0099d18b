use vstd::prelude::*;
use vstd::string::*;

use crate::request::{
    insert_header, HeaderSeq, Headers, Request, RequestView,
};
use crate::text::{
    chars_of, is_blank, is_blank_in, skip_white, skip_white_in, slice_string, trim, trimmed_slice,
    word_end, word_end_in,
};

verus! {

/// Why a request file could not be read as a request.
#[derive(Debug, Clone, Copy, PartialEq, Eq, Structural)]
pub enum ParseError {
    /// The first line is missing or holds no token.
    MissingMethod,
    /// The first line holds a method but no URL.
    MissingUrl,
}

/// The first index at or after `i` that holds `c`, or `s.len()`.
pub open spec fn find_char(s: Seq<char>, c: char, i: int) -> int
    decreases s.len() - i,
{
    if i < 0 || i >= s.len() {
        s.len() as int
    } else if s[i] == c {
        i
    } else {
        find_char(s, c, i + 1)
    }
}

pub proof fn lemma_find_char(s: Seq<char>, c: char, i: int)
    requires
        0 <= i <= s.len(),
    ensures
        i <= find_char(s, c, i) <= s.len(),
        find_char(s, c, i) < s.len() ==> s[find_char(s, c, i)] == c,
        forall|k: int| i <= k < find_char(s, c, i) ==> s[k] != c,
    decreases s.len() - i,
{
    if i < s.len() && s[i] != c {
        lemma_find_char(s, c, i + 1);
    }
}

/// `find_char` is the least index at or after `i` that is `s.len()` or holds `c`.
pub proof fn lemma_find_char_is(s: Seq<char>, c: char, i: int, j: int)
    requires
        0 <= i <= j <= s.len(),
        forall|k: int| i <= k < j ==> s[k] != c,
        j == s.len() || s[j] == c,
    ensures
        find_char(s, c, i) == j,
    decreases j - i,
{
    if i < j {
        lemma_find_char_is(s, c, i + 1, j);
    }
}

/// A line without the carriage return that ended it.
pub open spec fn strip_cr(l: Seq<char>) -> Seq<char> {
    if l.len() > 0 && l.last() == '\r' {
        l.drop_last()
    } else {
        l
    }
}

/// The lines of `s` from index `i` on: split at each `\n`, a `\r` before the `\n` dropped;
/// a final `\n` starts no further line.
pub open spec fn lines_from(s: Seq<char>, i: int) -> Seq<Seq<char>>
    decreases s.len() - i,
{
    if i < 0 || i >= s.len() {
        Seq::empty()
    } else {
        let n = find_char(s, '\n', i);
        if n >= s.len() {
            seq![s.subrange(i, s.len() as int)]
        } else {
            proof {
                lemma_find_char(s, '\n', i);
            }
            seq![strip_cr(s.subrange(i, n))] + lines_from(s, n + 1)
        }
    }
}

/// The lines of `s`.
pub open spec fn lines(s: Seq<char>) -> Seq<Seq<char>> {
    lines_from(s, 0)
}

/// The first index at or after `i` of a blank line, or `ls.len()`.
pub open spec fn blank_from(ls: Seq<Seq<char>>, i: int) -> int
    decreases ls.len() - i,
{
    if i < 0 || i >= ls.len() {
        ls.len() as int
    } else if is_blank(ls[i]) {
        i
    } else {
        blank_from(ls, i + 1)
    }
}

/// A header line split at its first colon into a trimmed name and value.
pub open spec fn split_header(l: Seq<char>) -> Option<(Seq<char>, Seq<char>)> {
    let k = find_char(l, ':', 0);
    if k < l.len() {
        Some((trim(l.subrange(0, k)), trim(l.subrange(k + 1, l.len() as int))))
    } else {
        None
    }
}

/// The headers that the lines `ls` declare, in order; a later line with a known name
/// overwrites its value, a line with no colon declares nothing.
pub open spec fn parse_headers(ls: Seq<Seq<char>>) -> HeaderSeq
    decreases ls.len(),
{
    if ls.len() == 0 {
        Seq::empty()
    } else {
        let before = parse_headers(ls.drop_last());
        match split_header(ls.last()) {
            Some((k, v)) => insert_header(before, k, v),
            None => before,
        }
    }
}

/// The lines `ls` joined with `\n`.
pub open spec fn join_lines(ls: Seq<Seq<char>>) -> Seq<char>
    decreases ls.len(),
{
    if ls.len() == 0 {
        Seq::empty()
    } else if ls.len() == 1 {
        ls[0]
    } else {
        join_lines(ls.drop_last()) + seq!['\n'] + ls.last()
    }
}

/// What a request file of the lines `ls` holds: the method and URL are the first two
/// tokens of the first line; header lines follow up to the first blank line; the lines
/// after it, if any, form the body.
pub open spec fn decode_lines(ls: Seq<Seq<char>>) -> Result<RequestView, ParseError> {
    if ls.len() == 0 {
        Err(ParseError::MissingMethod)
    } else {
        let first = ls[0];
        let a = skip_white(first, 0);
        let b = word_end(first, a);
        let c = skip_white(first, b);
        let d = word_end(first, c);
        if a >= first.len() {
            Err(ParseError::MissingMethod)
        } else if c >= first.len() {
            Err(ParseError::MissingUrl)
        } else {
            let end = blank_from(ls, 1);
            Ok(
                RequestView {
                    method: first.subrange(a, b),
                    url: first.subrange(c, d),
                    headers: parse_headers(ls.subrange(1, end)),
                    body: if end + 1 < ls.len() {
                        Some(join_lines(ls.subrange(end + 1, ls.len() as int)))
                    } else {
                        None
                    },
                },
            )
        }
    }
}

/// What a request file of the text `s` holds.
pub open spec fn decode(s: Seq<char>) -> Result<RequestView, ParseError> {
    decode_lines(lines(s))
}

/// The text of one header: `<name>: <value>`.
pub open spec fn header_line(e: (Seq<char>, Seq<char>)) -> Seq<char> {
    e.0 + seq![':', ' '] + e.1
}

/// One line per header, each ended by `\n`.
pub open spec fn headers_text(h: HeaderSeq) -> Seq<char>
    decreases h.len(),
{
    if h.len() == 0 {
        Seq::empty()
    } else {
        header_line(h[0]) + seq!['\n'] + headers_text(h.drop_first())
    }
}

/// The text of a request file: `<method> <url>`, the header lines, a blank line, the body.
pub open spec fn encode(r: RequestView) -> Seq<char> {
    r.method + seq![' '] + r.url + seq!['\n'] + headers_text(r.headers) + seq!['\n'] + match r.body {
        Some(b) => b,
        None => Seq::empty(),
    }
}

/// `r` is the exec form of the outcome `d`.
pub open spec fn parsed_as(r: Result<Request, ParseError>, d: Result<RequestView, ParseError>) -> bool {
    match (r, d) {
        (Ok(req), Ok(v)) => req@ == v,
        (Err(e), Err(f)) => e == f,
        _ => false,
    }
}

pub proof fn lemma_lines_from_step(s: Seq<char>, i: int)
    requires
        0 <= i < s.len(),
    ensures
        find_char(s, '\n', i) >= s.len() ==> lines_from(s, i) == seq![s.subrange(i, s.len() as int)],
        find_char(s, '\n', i) < s.len() ==> lines_from(s, i) == seq![strip_cr(s.subrange(i, find_char(s, '\n', i)))] + lines_from(s, find_char(s, '\n', i) + 1),
{
}

/// The bounds `(start, end)` of each line of `v`: `v[start..end]` is the line.
fn line_spans(v: &Vec<char>) -> (spans: Vec<(usize, usize)>)
    ensures
        spans@.len() == lines(v@).len(),
        forall|i: int|
            0 <= i < spans@.len() ==> {
                &&& #[trigger] spans@[i].0 <= spans@[i].1 <= v@.len()
                &&& v@.subrange(spans@[i].0 as int, spans@[i].1 as int) == lines(v@)[i]
            },
{
    let mut spans: Vec<(usize, usize)> = Vec::new();
    let mut pos: usize = 0;
    while pos < v.len()
        invariant
            pos <= v@.len(),
            lines(v@) == spans@.map_values(
                |p: (usize, usize)| v@.subrange(p.0 as int, p.1 as int),
            ) + lines_from(v@, pos as int),
            forall|i: int|
                0 <= i < spans@.len() ==> #[trigger] spans@[i].0 <= spans@[i].1 <= v@.len(),
        decreases v@.len() - pos,
    {
        let ghost before = spans@;
        let mut n = pos;
        while n < v.len() && v[n] != '\n'
            invariant
                pos <= n <= v@.len(),
                find_char(v@, '\n', n as int) == find_char(v@, '\n', pos as int),
            decreases v@.len() - n,
        {
            n = n + 1;
        }
        proof {
            lemma_lines_from_step(v@, pos as int);
        }
        if n == v.len() {
            spans.push((pos, n));
            proof {
                assert(spans@.map_values(|p: (usize, usize)| v@.subrange(p.0 as int, p.1 as int))
                    =~= before.map_values(
                    |p: (usize, usize)| v@.subrange(p.0 as int, p.1 as int),
                ).push(v@.subrange(pos as int, n as int)));
                assert(lines_from(v@, n as int) == Seq::<Seq<char>>::empty());
            }
            pos = n;
        } else {
            let end = if n > pos && v[n - 1] == '\r' {
                n - 1
            } else {
                n
            };
            assert(v@.subrange(pos as int, end as int) =~= strip_cr(
                v@.subrange(pos as int, n as int),
            ));
            spans.push((pos, end));
            proof {
                assert(spans@.map_values(|p: (usize, usize)| v@.subrange(p.0 as int, p.1 as int))
                    =~= before.map_values(
                    |p: (usize, usize)| v@.subrange(p.0 as int, p.1 as int),
                ).push(v@.subrange(pos as int, end as int)));
            }
            pos = n + 1;
        }
        proof {
            assert(lines(v@) =~= spans@.map_values(
                |p: (usize, usize)| v@.subrange(p.0 as int, p.1 as int),
            ) + lines_from(v@, pos as int));
        }
    }
    proof {
        assert(lines_from(v@, pos as int) == Seq::<Seq<char>>::empty());
        assert(lines(v@) =~= spans@.map_values(
            |p: (usize, usize)| v@.subrange(p.0 as int, p.1 as int),
        ));
    }
    spans
}

/// `lo + find_char(v[lo..hi], c, 0)`: the first index in `lo..hi` that holds `c`, or `hi`.
fn find_char_in(v: &Vec<char>, lo: usize, hi: usize, c: char) -> (k: usize)
    requires
        lo <= hi <= v@.len(),
    ensures
        k == lo + find_char(v@.subrange(lo as int, hi as int), c, 0),
        lo <= k <= hi,
{
    let ghost line = v@.subrange(lo as int, hi as int);
    let mut k = lo;
    while k < hi && v[k] != c
        invariant
            lo <= k <= hi <= v@.len(),
            line == v@.subrange(lo as int, hi as int),
            find_char(line, c, k - lo) == find_char(line, c, 0),
        decreases hi - k,
    {
        assert(line[k - lo] == v@[k as int]);
        k = k + 1;
    }
    proof {
        if k < hi {
            assert(line[k - lo] == v@[k as int]);
        }
    }
    k
}

/// Reads a request file.
///
/// The first line gives the method and the URL, its first two whitespace-separated tokens;
/// further tokens are ignored. Each following line up to the first blank one is a header,
/// split at its first colon into a name and a value, both trimmed; a line without a colon
/// is skipped, and a name given twice keeps its last value. The lines after the blank
/// line, if there are any, are joined with `\n` into the body.
pub fn parse_http_file(content: &str) -> (r: Result<Request, ParseError>)
    ensures
        parsed_as(r, decode(content@)),
{
    let v = chars_of(content);
    let spans = line_spans(&v);
    let ghost ls = lines(content@);
    assert(ls == lines(v@));
    if spans.len() == 0 {
        return Err(ParseError::MissingMethod);
    }
    let lo = spans[0].0;
    let hi = spans[0].1;
    let ghost first = ls[0];
    assert(first == v@.subrange(lo as int, hi as int));
    let a = skip_white_in(&v, lo, hi, lo);
    if a >= hi {
        return Err(ParseError::MissingMethod);
    }
    let b = word_end_in(&v, lo, hi, a);
    let c = skip_white_in(&v, lo, hi, b);
    if c >= hi {
        return Err(ParseError::MissingUrl);
    }
    let d = word_end_in(&v, lo, hi, c);
    let method = slice_string(content, a, b);
    let url = slice_string(content, c, d);
    assert(method@ =~= first.subrange(a - lo, b - lo));
    assert(url@ =~= first.subrange(c - lo, d - lo));

    let mut end: usize = 1;
    while end < spans.len() && !is_blank_in(&v, spans[end].0, spans[end].1)
        invariant
            1 <= end <= spans@.len(),
            spans@.len() == ls.len(),
            blank_from(ls, end as int) == blank_from(ls, 1),
            forall|i: int|
                0 <= i < spans@.len() ==> {
                    &&& #[trigger] spans@[i].0 <= spans@[i].1 <= v@.len()
                    &&& v@.subrange(spans@[i].0 as int, spans@[i].1 as int) == ls[i]
                },
        decreases spans@.len() - end,
    {
        end = end + 1;
    }
    assert(end == blank_from(ls, 1)) by {
        if end < spans.len() {
            assert(v@.subrange(spans@[end as int].0 as int, spans@[end as int].1 as int)
                == ls[end as int]);
        }
    }

    let mut headers = Headers::new();
    let mut i: usize = 1;
    while i < end
        invariant
            1 <= i <= end <= spans@.len(),
            spans@.len() == ls.len(),
            v@ == content@,
            headers@ == parse_headers(ls.subrange(1, i as int)),
            forall|i: int|
                0 <= i < spans@.len() ==> {
                    &&& #[trigger] spans@[i].0 <= spans@[i].1 <= v@.len()
                    &&& v@.subrange(spans@[i].0 as int, spans@[i].1 as int) == ls[i]
                },
        decreases end - i,
    {
        let s = spans[i].0;
        let e = spans[i].1;
        let ghost line = ls[i as int];
        assert(line == v@.subrange(s as int, e as int));
        let k = find_char_in(&v, s, e, ':');
        assert(ls.subrange(1, i as int + 1).drop_last() =~= ls.subrange(1, i as int));
        assert(ls.subrange(1, i as int + 1).last() == line);
        if k < e {
            let name = trimmed_slice(content, &v, s, k);
            let value = trimmed_slice(content, &v, k + 1, e);
            assert(line.subrange(0, k - s) =~= v@.subrange(s as int, k as int));
            assert(line.subrange(k - s + 1, line.len() as int) =~= v@.subrange(
                k + 1,
                e as int,
            ));
            headers.insert(name, value);
        }
        i = i + 1;
    }

    let mut body: Option<String> = None;
    if end < spans.len() && end + 1 < spans.len() {
        let mut text = String::new();
        let mut j = end + 1;
        while j < spans.len()
            invariant
                end + 1 <= j <= spans@.len(),
                spans@.len() == ls.len(),
                v@ == content@,
                text@ == join_lines(ls.subrange(end + 1, j as int)),
                forall|i: int|
                    0 <= i < spans@.len() ==> {
                        &&& #[trigger] spans@[i].0 <= spans@[i].1 <= v@.len()
                        &&& v@.subrange(spans@[i].0 as int, spans@[i].1 as int) == ls[i]
                    },
            decreases spans@.len() - j,
        {
            let ghost before = text@;
            proof {
                reveal_strlit("\n");
            }
            if j > end + 1 {
                text.append("\n");
            }
            let s = spans[j].0;
            let e = spans[j].1;
            text.append(content.substring_char(s, e));
            proof {
                let part = ls.subrange(end + 1, j as int + 1);
                assert(part.drop_last() =~= ls.subrange(end + 1, j as int));
                assert(part.last() == ls[j as int]);
                if j == end + 1 {
                    assert(text@ =~= part[0]);
                } else {
                    assert(text@ =~= before + seq!['\n'] + ls[j as int]);
                }
            }
            j = j + 1;
        }
        assert(ls.subrange(end + 1, j as int) =~= ls.subrange(end + 1, ls.len() as int));
        body = Some(text);
    }
    assert(ls.subrange(1, end as int) == ls.subrange(1, i as int));
    Ok(Request { method, url, headers, body })
}

pub proof fn lemma_headers_text_push(h: HeaderSeq, e: (Seq<char>, Seq<char>))
    ensures
        headers_text(h.push(e)) == headers_text(h) + header_line(e) + seq!['\n'],
    decreases h.len(),
{
    if h.len() == 0 {
        assert(h.push(e).drop_first() =~= Seq::<(Seq<char>, Seq<char>)>::empty());
        assert(h.push(e)[0] == e);
        assert(headers_text(h.push(e).drop_first()) == Seq::<char>::empty());
        assert(headers_text(h) == Seq::<char>::empty());
        assert(headers_text(h.push(e)) =~= headers_text(h) + header_line(e) + seq!['\n']);
    } else {
        assert(h.push(e).drop_first() =~= h.drop_first().push(e));
        lemma_headers_text_push(h.drop_first(), e);
        assert(headers_text(h.push(e)) =~= headers_text(h) + header_line(e) + seq!['\n']);
    }
}

/// Writes a request file: `<method> <url>`, one `<name>: <value>` line per header in
/// order, a blank line, then the body as it is.
pub fn format_http_file(request: &Request) -> (r: String)
    ensures
        r@ == encode(request@),
{
    proof {
        reveal_strlit(" ");
        reveal_strlit("\n");
        reveal_strlit(": ");
    }
    let mut out = String::new();
    out.append(request.method.as_str());
    out.append(" ");
    out.append(request.url.as_str());
    out.append("\n");
    let ghost head = out@;
    let entries = request.headers.entries();
    let ghost h = request.headers@;
    let mut i: usize = 0;
    while i < entries.len()
        invariant
            0 <= i <= entries@.len(),
            h == crate::request::entries_view(entries@),
            out@ == head + headers_text(h.take(i as int)),
        decreases entries@.len() - i,
    {
        proof {
            reveal_strlit("\n");
            reveal_strlit(": ");
        }
        let ghost before = out@;
        out.append(entries[i].0.as_str());
        out.append(": ");
        out.append(entries[i].1.as_str());
        out.append("\n");
        proof {
            assert(h[i as int] == (entries@[i as int].0@, entries@[i as int].1@));
            assert(h.take(i as int + 1) =~= h.take(i as int).push(h[i as int]));
            lemma_headers_text_push(h.take(i as int), h[i as int]);
            assert(out@ =~= head + headers_text(h.take(i as int + 1)));
        }
        i = i + 1;
    }
    assert(h.take(i as int) =~= h);
    out.append("\n");
    match &request.body {
        Some(b) => {
            out.append(b.as_str());
        },
        None => {},
    }
    assert(out@ =~= encode(request@));
    out
}

proof fn lemma_blank_from_insert(ls: Seq<Seq<char>>, i: int, l: Seq<char>, j: int)
    requires
        1 <= j <= i <= blank_from(ls, j),
        i <= ls.len(),
        !is_blank(l),
    ensures
        blank_from(ls.insert(i, l), j) == blank_from(ls, j) + 1,
    decreases ls.len() - j,
{
    let t = ls.insert(i, l);
    if j < i {
        assert(t[j] == ls[j]);
        lemma_blank_from_insert(ls, i, l, j + 1);
    } else {
        assert(t[i] == l);
        lemma_blank_from_shift(ls, i, l, i + 1);
    }
}

pub proof fn lemma_blank_from_bounds(ls: Seq<Seq<char>>, j: int)
    requires
        0 <= j <= ls.len(),
    ensures
        j <= blank_from(ls, j) <= ls.len(),
    decreases ls.len() - j,
{
    if j < ls.len() && !is_blank(ls[j]) {
        lemma_blank_from_bounds(ls, j + 1);
    }
}

proof fn lemma_blank_from_shift(ls: Seq<Seq<char>>, i: int, l: Seq<char>, j: int)
    requires
        0 <= i < j <= ls.len() + 1,
    ensures
        blank_from(ls.insert(i, l), j) == blank_from(ls, j - 1) + 1,
    decreases ls.len() + 1 - j,
{
    let t = ls.insert(i, l);
    if j < t.len() {
        assert(t[j] == ls[j - 1]);
        lemma_blank_from_shift(ls, i, l, j + 1);
    }
}

proof fn lemma_parse_headers_skip(ls: Seq<Seq<char>>, i: int, l: Seq<char>)
    requires
        0 <= i <= ls.len(),
        split_header(l) is None,
    ensures
        parse_headers(ls.insert(i, l)) == parse_headers(ls),
    decreases ls.len(),
{
    let t = ls.insert(i, l);
    if i == ls.len() {
        assert(t.drop_last() =~= ls);
        assert(t.last() == l);
    } else {
        assert(t.drop_last() =~= ls.drop_last().insert(i, l));
        assert(t.last() == ls.last());
        lemma_parse_headers_skip(ls.drop_last(), i, l);
    }
}

/// A line without a colon in the header section is ignored: the request read from the
/// lines is the one read without that line, and reading succeeds exactly when it did.
pub proof fn lemma_line_without_colon_ignored(ls: Seq<Seq<char>>, i: int, l: Seq<char>)
    requires
        1 <= i <= blank_from(ls, 1),
        i <= ls.len(),
        !is_blank(l),
        forall|k: int| 0 <= k < l.len() ==> l[k] != ':',
    ensures
        decode_lines(ls.insert(i, l)) == decode_lines(ls),
{
    let t = ls.insert(i, l);
    lemma_find_char_is(l, ':', 0, l.len() as int);
    assert(split_header(l) is None);
    assert(t[0] == ls[0]);
    lemma_blank_from_insert(ls, i, l, 1);
    lemma_blank_from_bounds(ls, 1);
    let end = blank_from(ls, 1);
    assert(t.subrange(1, end + 1) =~= ls.subrange(1, end).insert(i - 1, l));
    lemma_parse_headers_skip(ls.subrange(1, end), i - 1, l);
    if end + 1 < ls.len() {
        assert(t.subrange(end + 2, t.len() as int) =~= ls.subrange(end + 1, ls.len() as int));
    }
}

} // verus!
