use vstd::prelude::*;

use crate::codec::{
    blank_from, decode, encode, find_char, header_line, headers_text, join_lines, lemma_find_char,
    lemma_find_char_is, lemma_line_without_colon_ignored, lines, lines_from, parse_headers,
    split_header, strip_cr,
};
use crate::request::{index_of, insert_header, lemma_index_of_unique, unique_names, HeaderSeq, RequestView};
use crate::text::{
    is_blank, is_white, lemma_skip_white_back_bounds, lemma_skip_white_bounds, lemma_skip_white_is,
    lemma_word_end_is, skip_white, skip_white_back, trim,
};

verus! {

/// A method or URL that a request file holds unchanged: not empty, no whitespace.
pub open spec fn is_token(s: Seq<char>) -> bool {
    s.len() > 0 && forall|i: int| 0 <= i < s.len() ==> !is_white(#[trigger] s[i])
}

/// A header that a request file holds unchanged: the name has no colon, neither part has a
/// line break or surrounding whitespace.
pub open spec fn header_fits(e: (Seq<char>, Seq<char>)) -> bool {
    &&& forall|i: int| 0 <= i < e.0.len() ==> #[trigger] e.0[i] != ':' && e.0[i] != '\n'
    &&& forall|i: int| 0 <= i < e.1.len() ==> #[trigger] e.1[i] != '\n'
    &&& trim(e.0) == e.0
    &&& trim(e.1) == e.1
}

/// A body that a request file holds unchanged: not empty, not ended by a line break, and
/// with no carriage return before a line break.
pub open spec fn body_fits(b: Seq<char>) -> bool {
    &&& b.len() > 0
    &&& b.last() != '\n'
    &&& forall|i: int| 0 <= i < b.len() - 1 ==> !(#[trigger] b[i] == '\r' && b[i + 1] == '\n')
}

/// A request that reads back as itself once written.
pub open spec fn round_trips(d: RequestView) -> bool {
    &&& is_token(d.method)
    &&& is_token(d.url)
    &&& unique_names(d.headers)
    &&& forall|i: int| 0 <= i < d.headers.len() ==> header_fits(#[trigger] d.headers[i])
    &&& match d.body {
        Some(b) => body_fits(b),
        None => true,
    }
}

/// A text that stands as one line: no line break, and no carriage return at its end.
spec fn one_line(a: Seq<char>) -> bool {
    &&& forall|i: int| 0 <= i < a.len() ==> #[trigger] a[i] != '\n'
    &&& (a.len() == 0 || a.last() != '\r')
}

proof fn lemma_find_char_shift(p: Seq<char>, q: Seq<char>, c: char, i: int)
    requires
        0 <= i <= q.len(),
    ensures
        find_char(p + q, c, p.len() + i) == p.len() + find_char(q, c, i),
{
    lemma_find_char(q, c, i);
    let j = find_char(q, c, i);
    let s = p + q;
    assert forall|k: int| p.len() + i <= k < p.len() + j implies s[k] != c by {
        assert(s[k] == q[k - p.len()]);
    }
    if j < q.len() {
        assert(s[p.len() + j] == q[j]);
    }
    lemma_find_char_is(s, c, p.len() + i, p.len() + j);
}

proof fn lemma_lines_shift(p: Seq<char>, q: Seq<char>, i: int)
    requires
        0 <= i <= q.len(),
    ensures
        lines_from(p + q, p.len() + i) == lines_from(q, i),
    decreases q.len() - i,
{
    let s = p + q;
    if i < q.len() {
        lemma_find_char_shift(p, q, '\n', i);
        lemma_find_char(q, '\n', i);
        let n = find_char(q, '\n', i);
        if n < q.len() {
            lemma_lines_shift(p, q, n + 1);
            assert(s.subrange(p.len() + i, p.len() + n) =~= q.subrange(i, n));
        } else {
            assert(s.subrange(p.len() + i, s.len() as int) =~= q.subrange(i, q.len() as int));
        }
    }
}

/// A line followed by a line break starts the lines of a text.
proof fn lemma_lines_cons(a: Seq<char>, rest: Seq<char>)
    requires
        one_line(a),
    ensures
        lines(a + seq!['\n'] + rest) == seq![a] + lines(rest),
{
    let p = a + seq!['\n'];
    let s = p + rest;
    assert forall|k: int| 0 <= k < a.len() implies s[k] != '\n' by {
        assert(s[k] == a[k]);
    }
    assert(s[a.len() as int] == '\n');
    lemma_find_char_is(s, '\n', 0, a.len() as int);
    assert(s.subrange(0, a.len() as int) =~= a);
    lemma_lines_shift(p, rest, 0);
    assert(lines_from(s, a.len() + 1int) == lines(rest));
    assert(strip_cr(a) == a);
}

proof fn lemma_header_line_fits(e: (Seq<char>, Seq<char>))
    requires
        header_fits(e),
    ensures
        one_line(header_line(e)),
        !is_blank(header_line(e)),
        split_header(header_line(e)) == Some(e),
{
    let l = header_line(e);
    let k = e.0.len() as int;
    assert(l[k] == ':');
    assert(!is_white(l[k]));
    assert forall|i: int| 0 <= i < l.len() implies #[trigger] l[i] != '\n' by {
        if i < k {
            assert(l[i] == e.0[i]);
        } else if i >= k + 2 {
            assert(l[i] == e.1[i - k - 2]);
        }
    }
    lemma_trim_fixed(e.1);
    if e.1.len() > 0 {
        assert(l.last() == e.1.last());
    }
    assert forall|i: int| 0 <= i < k implies l[i] != ':' by {
        assert(l[i] == e.0[i]);
    }
    lemma_find_char_is(l, ':', 0, k);
    assert(l.subrange(0, k) =~= e.0);
    lemma_trim_space(e.1);
    assert(l.subrange(k + 1, l.len() as int) =~= seq![' '] + e.1);
}

/// A text equal to its trimmed form starts and ends with no whitespace.
proof fn lemma_trim_fixed(v: Seq<char>)
    requires
        trim(v) == v,
    ensures
        v.len() > 0 ==> !is_white(v[0]) && !is_white(v.last()),
{
    lemma_skip_white_bounds(v, 0);
    lemma_skip_white_back_bounds(v, v.len() as int);
    let a = skip_white(v, 0);
    let b = skip_white_back(v, v.len() as int);
    if v.len() > 0 {
        assert(a < b);
        assert(v.subrange(a, b).len() == v.len());
    }
}

proof fn lemma_trim_space(v: Seq<char>)
    requires
        trim(v) == v,
    ensures
        trim(seq![' '] + v) == v,
{
    lemma_trim_fixed(v);
    let s = seq![' '] + v;
    lemma_skip_white_bounds(s, 0);
    lemma_skip_white_back_bounds(s, s.len() as int);
    if v.len() == 0 {
        assert(s.len() == 1);
        assert(is_white(s[0]));
        assert(skip_white(s, 1) == 1);
        assert(skip_white_back(s, 0) == 0);
        assert(trim(s) =~= v);
    } else {
        assert(s[1] == v[0]);
        lemma_skip_white_is(s, 0, 1);
        assert(s[s.len() - 1] == v.last());
        assert(skip_white_back(s, s.len() as int) == s.len());
        assert(s.subrange(1, s.len() as int) =~= v);
    }
}

proof fn lemma_lines_headers(h: HeaderSeq, tail: Seq<char>)
    requires
        forall|i: int| 0 <= i < h.len() ==> header_fits(#[trigger] h[i]),
    ensures
        lines(headers_text(h) + tail) == h.map_values(|e: (Seq<char>, Seq<char>)| header_line(e))
            + lines(tail),
    decreases h.len(),
{
    if h.len() == 0 {
        assert(headers_text(h) + tail =~= tail);
        assert(h.map_values(|e: (Seq<char>, Seq<char>)| header_line(e)) =~= Seq::<
            Seq<char>,
        >::empty());
        assert(lines(headers_text(h) + tail) =~= h.map_values(
            |e: (Seq<char>, Seq<char>)| header_line(e),
        ) + lines(tail));
    } else {
        let t = h.drop_first();
        assert forall|i: int| 0 <= i < t.len() implies header_fits(#[trigger] t[i]) by {
            assert(t[i] == h[i + 1]);
        }
        lemma_lines_headers(t, tail);
        assert(header_fits(h[0]));
        lemma_header_line_fits(h[0]);
        let rest = headers_text(t) + tail;
        assert(headers_text(h) + tail =~= header_line(h[0]) + seq!['\n'] + rest);
        lemma_lines_cons(header_line(h[0]), rest);
        assert(h.map_values(|e: (Seq<char>, Seq<char>)| header_line(e)) =~= seq![
            header_line(h[0]),
        ] + t.map_values(|e: (Seq<char>, Seq<char>)| header_line(e)));
        assert(lines(headers_text(h) + tail) =~= h.map_values(
            |e: (Seq<char>, Seq<char>)| header_line(e),
        ) + lines(tail));
    }
}

proof fn lemma_parse_header_lines(h: HeaderSeq)
    requires
        unique_names(h),
        forall|i: int| 0 <= i < h.len() ==> header_fits(#[trigger] h[i]),
    ensures
        parse_headers(h.map_values(|e: (Seq<char>, Seq<char>)| header_line(e))) == h,
    decreases h.len(),
{
    let ls = h.map_values(|e: (Seq<char>, Seq<char>)| header_line(e));
    if h.len() == 0 {
        assert(ls.len() == 0);
    } else {
        let t = h.drop_last();
        assert(unique_names(t));
        assert forall|i: int| 0 <= i < t.len() implies header_fits(#[trigger] t[i]) by {
            assert(t[i] == h[i]);
        }
        lemma_parse_header_lines(t);
        assert(ls.drop_last() =~= t.map_values(|e: (Seq<char>, Seq<char>)| header_line(e)));
        let e = h.last();
        assert(header_fits(h[h.len() - 1]));
        lemma_header_line_fits(e);
        assert(ls.last() == header_line(e));
        lemma_index_of_unique(t, e.0);
        assert forall|j: int| 0 <= j < t.len() implies t[j].0 != e.0 by {
            assert(h[j].0 != h[h.len() - 1].0);
        }
        assert(index_of(t, e.0) == t.len());
        assert(insert_header(t, e.0, e.1) =~= h);
    }
}

proof fn lemma_join_cons(x: Seq<char>, ls: Seq<Seq<char>>)
    requires
        ls.len() > 0,
    ensures
        join_lines(seq![x] + ls) == x + seq!['\n'] + join_lines(ls),
    decreases ls.len(),
{
    let s = seq![x] + ls;
    assert(s.drop_last() =~= seq![x] + ls.drop_last());
    assert(s.last() == ls.last());
    if ls.len() == 1 {
        assert(seq![x] + ls.drop_last() =~= seq![x]);
        assert(join_lines(seq![x]) == x);
        assert(join_lines(ls) == ls[0]);
        assert(join_lines(s) =~= x + seq!['\n'] + join_lines(ls));
    } else {
        lemma_join_cons(x, ls.drop_last());
        assert(join_lines(s) =~= x + seq!['\n'] + join_lines(ls));
    }
}

/// A body that fits comes back from its lines.
proof fn lemma_body_lines(b: Seq<char>)
    requires
        body_fits(b),
    ensures
        lines(b).len() > 0,
        join_lines(lines(b)) == b,
    decreases b.len(),
{
    lemma_find_char(b, '\n', 0);
    let n = find_char(b, '\n', 0);
    if n >= b.len() {
        assert(b.subrange(0, b.len() as int) =~= b);
        assert(lines(b) == seq![b]);
    } else {
        assert(n < b.len() - 1);
        let first = b.subrange(0, n);
        let rest = b.subrange(n + 1, b.len() as int);
        if n > 0 {
            assert(!(b[n - 1] == '\r' && b[n] == '\n'));
        }
        assert(strip_cr(first) == first);
        assert(rest.last() == b.last());
        assert forall|i: int| 0 <= i < rest.len() - 1 implies !(#[trigger] rest[i] == '\r' && rest[i
            + 1] == '\n') by {
            assert(rest[i] == b[n + 1 + i]);
            assert(rest[i + 1] == b[n + 1 + i + 1]);
        }
        lemma_body_lines(rest);
        let p = b.subrange(0, n + 1);
        assert(b =~= p + rest);
        lemma_lines_shift(p, rest, 0);
        assert(lines(b) == seq![first] + lines(rest));
        lemma_join_cons(first, lines(rest));
        assert(first + seq!['\n'] + rest =~= b);
    }
}

proof fn lemma_blank_from_is(ls: Seq<Seq<char>>, i: int, j: int)
    requires
        0 <= i <= j < ls.len(),
        forall|k: int| i <= k < j ==> !is_blank(#[trigger] ls[k]),
        is_blank(ls[j]),
    ensures
        blank_from(ls, i) == j,
    decreases j - i,
{
    if i < j {
        lemma_blank_from_is(ls, i + 1, j);
    }
}

/// Writing a request and reading it back gives the same request, for every request whose
/// method and URL are tokens, whose header names are unique and whose headers and body a
/// request file can hold unchanged.
pub proof fn lemma_round_trip(d: RequestView)
    requires
        round_trips(d),
    ensures
        decode(encode(d)) == Ok::<RequestView, crate::codec::ParseError>(d),
{
    let m = d.method;
    let u = d.url;
    let first = m + seq![' '] + u;
    let body = match d.body {
        Some(b) => b,
        None => Seq::<char>::empty(),
    };
    let hl = d.headers.map_values(|e: (Seq<char>, Seq<char>)| header_line(e));
    let text = encode(d);
    let after_first = headers_text(d.headers) + (seq!['\n'] + body);
    assert(text =~= first + seq!['\n'] + after_first);

    // The first line.
    assert forall|i: int| 0 <= i < first.len() implies #[trigger] first[i] != '\n' by {
        if i < m.len() {
            assert(first[i] == m[i]);
            assert(!is_white(m[i]));
        } else if i > m.len() {
            assert(first[i] == u[i - m.len() - 1]);
            assert(!is_white(u[i - m.len() - 1]));
        }
    }
    assert(first.last() == u.last());
    assert(!is_white(u[u.len() - 1]));
    lemma_lines_cons(first, after_first);
    lemma_lines_headers(d.headers, seq!['\n'] + body);
    assert(seq!['\n'] + body =~= Seq::<char>::empty() + seq!['\n'] + body);
    lemma_lines_cons(Seq::<char>::empty(), body);
    let ls = lines(text);
    let lb = lines(body);
    assert(ls =~= seq![first] + hl + seq![Seq::<char>::empty()] + lb);

    // The method and the URL.
    assert(ls[0] == first);
    assert(!is_white(first[0])) by {
        assert(first[0] == m[0]);
    }
    lemma_skip_white_is(first, 0, 0);
    assert forall|k: int| 0 <= k < m.len() implies !is_white(#[trigger] first[k]) by {
        assert(first[k] == m[k]);
    }
    assert(first[m.len() as int] == ' ');
    lemma_word_end_is(first, 0, m.len() as int);
    assert(first[m.len() + 1int] == u[0]);
    lemma_skip_white_is(first, m.len() as int, m.len() + 1int);
    assert forall|k: int| m.len() + 1int <= k < first.len() implies !is_white(#[trigger] first[k]) by {
        assert(first[k] == u[k - m.len() - 1]);
    }
    lemma_word_end_is(first, m.len() + 1int, first.len() as int);
    assert(first.subrange(0, m.len() as int) =~= m);
    assert(first.subrange(m.len() + 1int, first.len() as int) =~= u);

    // The header section ends at the blank line that the writer put after it.
    let end = hl.len() + 1int;
    assert forall|k: int| 1 <= k < end implies !is_blank(#[trigger] ls[k]) by {
        assert(ls[k] == hl[k - 1]);
        assert(header_fits(d.headers[k - 1]));
        lemma_header_line_fits(d.headers[k - 1]);
    }
    assert(ls[end] == Seq::<char>::empty());
    lemma_blank_from_is(ls, 1, end);
    assert(ls.subrange(1, end) =~= hl);
    lemma_parse_header_lines(d.headers);

    // The body.
    assert(ls.subrange(end + 1, ls.len() as int) =~= lb);
    match d.body {
        Some(b) => {
            lemma_body_lines(b);
        },
        None => {
            assert(lb == Seq::<Seq<char>>::empty());
        },
    }
}

/// The lines of a text that ends a line, followed by more text, are its own lines followed by
/// those of the rest.
proof fn lemma_lines_append(a: Seq<char>, rest: Seq<char>)
    requires
        a.len() > 0,
        a.last() == '\n',
    ensures
        lines(a + rest) == lines(a) + lines(rest),
    decreases a.len(),
{
    let s = a + rest;
    lemma_find_char(a, '\n', 0);
    let n = find_char(a, '\n', 0);
    assert(n < a.len()) by {
        if n >= a.len() {
            assert(a[a.len() - 1] == '\n');
        }
    }
    assert forall|k: int| 0 <= k < n implies s[k] != '\n' by {
        assert(s[k] == a[k]);
    }
    assert(s[n] == a[n]);
    lemma_find_char_is(s, '\n', 0, n);
    assert(s.subrange(0, n) =~= a.subrange(0, n));
    let p = a.subrange(0, n + 1);
    let a2 = a.subrange(n + 1, a.len() as int);
    assert(a =~= p + a2);
    assert(s =~= p + (a2 + rest));
    lemma_lines_shift(p, a2, 0);
    lemma_lines_shift(p, a2 + rest, 0);
    if a2.len() == 0 {
        assert(a2 + rest =~= rest);
        assert(lines(a2) == Seq::<Seq<char>>::empty());
    } else {
        assert(a2.last() == a.last());
        lemma_lines_append(a2, rest);
    }
    assert(lines(a) =~= seq![strip_cr(a.subrange(0, n))] + lines(a2));
    assert(lines(s) =~= seq![strip_cr(a.subrange(0, n))] + lines(a2 + rest));
    assert(lines(a + rest) =~= lines(a) + lines(rest));
}

/// A header line without a colon is ignored: put after the first line and the header lines
/// `a`, before the rest `b`, it changes neither whether the text reads as a request nor the
/// request read.
pub proof fn lemma_text_line_without_colon_ignored(a: Seq<char>, l: Seq<char>, b: Seq<char>)
    requires
        a.len() > 0,
        a.last() == '\n',
        forall|k: int| 1 <= k < lines(a).len() ==> !is_blank(#[trigger] lines(a)[k]),
        !is_blank(l),
        forall|k: int| 0 <= k < l.len() ==> l[k] != ':' && l[k] != '\n',
        l.last() != '\r',
    ensures
        decode(a + l + seq!['\n'] + b) == decode(a + b),
{
    lemma_lines_append(a, b);
    lemma_lines_append(a, l + seq!['\n'] + b);
    assert(a + l + seq!['\n'] + b =~= a + (l + seq!['\n'] + b));
    assert(one_line(l));
    lemma_lines_cons(l, b);
    let la = lines(a);
    let ls = la + lines(b);
    assert(la.len() > 0) by {
        lemma_find_char(a, '\n', 0);
    }
    assert(lines(a + l + seq!['\n'] + b) =~= ls.insert(la.len() as int, l));
    assert(blank_from(ls, 1) >= la.len()) by {
        lemma_blank_from_past(ls, 1, la.len() as int);
    }
    lemma_line_without_colon_ignored(ls, la.len() as int, l);
}

proof fn lemma_blank_from_past(ls: Seq<Seq<char>>, i: int, j: int)
    requires
        1 <= i <= j <= ls.len(),
        forall|k: int| i <= k < j ==> !is_blank(#[trigger] ls[k]),
    ensures
        blank_from(ls, i) >= j,
    decreases j - i,
{
    if i < j {
        assert(!is_blank(ls[i]));
        lemma_blank_from_past(ls, i + 1, j);
    } else {
        crate::codec::lemma_blank_from_bounds(ls, i);
    }
}

} // verus!
