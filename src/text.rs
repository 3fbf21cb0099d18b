use vstd::prelude::*;
use vstd::string::*;

verus! {

/// Unicode `White_Space`, the set that `char::is_whitespace` tests.
pub open spec fn is_white(c: char) -> bool {
    ||| ('\u{9}' <= c && c <= '\u{d}')
    ||| c == ' '
    ||| c == '\u{85}'
    ||| c == '\u{a0}'
    ||| c == '\u{1680}'
    ||| ('\u{2000}' <= c && c <= '\u{200a}')
    ||| c == '\u{2028}'
    ||| c == '\u{2029}'
    ||| c == '\u{202f}'
    ||| c == '\u{205f}'
    ||| c == '\u{3000}'
}

pub fn is_white_char(c: char) -> (r: bool)
    ensures
        r == is_white(c),
{
    ('\u{9}' <= c && c <= '\u{d}') || c == ' ' || c == '\u{85}' || c == '\u{a0}' || c
        == '\u{1680}' || ('\u{2000}' <= c && c <= '\u{200a}') || c == '\u{2028}' || c
        == '\u{2029}' || c == '\u{202f}' || c == '\u{205f}' || c == '\u{3000}'
}

/// The first index at or after `i` that holds no whitespace, or `s.len()`.
pub open spec fn skip_white(s: Seq<char>, i: int) -> int
    decreases s.len() - i,
{
    if i < 0 || i >= s.len() || !is_white(s[i]) {
        i
    } else {
        skip_white(s, i + 1)
    }
}

/// The first index at or after `i` that holds whitespace, or `s.len()`.
pub open spec fn word_end(s: Seq<char>, i: int) -> int
    decreases s.len() - i,
{
    if i < 0 || i >= s.len() || is_white(s[i]) {
        i
    } else {
        word_end(s, i + 1)
    }
}

/// One past the last index before `j` that holds no whitespace, or 0.
pub open spec fn skip_white_back(s: Seq<char>, j: int) -> int
    decreases j,
{
    if j <= 0 || j > s.len() || !is_white(s[j - 1]) {
        j
    } else {
        skip_white_back(s, j - 1)
    }
}

/// `s` without its leading and trailing whitespace.
pub open spec fn trim(s: Seq<char>) -> Seq<char> {
    let a = skip_white(s, 0);
    let b = skip_white_back(s, s.len() as int);
    if a < b {
        s.subrange(a, b)
    } else {
        Seq::empty()
    }
}

/// Whether every character of `s` is whitespace.
pub open spec fn is_blank(s: Seq<char>) -> bool {
    forall|i: int| 0 <= i < s.len() ==> is_white(#[trigger] s[i])
}

pub proof fn lemma_skip_white_bounds(s: Seq<char>, i: int)
    requires
        0 <= i <= s.len(),
    ensures
        i <= skip_white(s, i) <= s.len(),
        forall|k: int| i <= k < skip_white(s, i) ==> is_white(#[trigger] s[k]),
        skip_white(s, i) < s.len() ==> !is_white(s[skip_white(s, i)]),
    decreases s.len() - i,
{
    if i < s.len() && is_white(s[i]) {
        lemma_skip_white_bounds(s, i + 1);
    }
}

pub proof fn lemma_skip_white_back_bounds(s: Seq<char>, j: int)
    requires
        0 <= j <= s.len(),
    ensures
        0 <= skip_white_back(s, j) <= j,
        forall|k: int| skip_white_back(s, j) <= k < j ==> is_white(#[trigger] s[k]),
        skip_white_back(s, j) > 0 ==> !is_white(s[skip_white_back(s, j) - 1]),
    decreases j,
{
    if j > 0 && is_white(s[j - 1]) {
        lemma_skip_white_back_bounds(s, j - 1);
    }
}

/// `skip_white` is the least index at or after `i` that is `s.len()` or holds no whitespace.
pub proof fn lemma_skip_white_is(s: Seq<char>, i: int, j: int)
    requires
        0 <= i <= j <= s.len(),
        forall|k: int| i <= k < j ==> is_white(#[trigger] s[k]),
        j == s.len() || !is_white(s[j]),
    ensures
        skip_white(s, i) == j,
    decreases j - i,
{
    if i < j {
        lemma_skip_white_is(s, i + 1, j);
    }
}

/// `word_end` is the least index at or after `i` that is `s.len()` or holds whitespace.
pub proof fn lemma_word_end_is(s: Seq<char>, i: int, j: int)
    requires
        0 <= i <= j <= s.len(),
        forall|k: int| i <= k < j ==> !is_white(#[trigger] s[k]),
        j == s.len() || is_white(s[j]),
    ensures
        word_end(s, i) == j,
    decreases j - i,
{
    if i < j {
        lemma_word_end_is(s, i + 1, j);
    }
}

/// The characters of `s`, one per element.
pub fn chars_of(s: &str) -> (v: Vec<char>)
    ensures
        v@ == s@,
{
    let mut v: Vec<char> = Vec::new();
    for c in it: s.chars()
        invariant
            v@ == it.seq().take(it.index() as int),
    {
        v.push(c);
    }
    v
}

/// The characters `from..to` of `s`, as an owned string.
pub fn slice_string(s: &str, from: usize, to: usize) -> (r: String)
    requires
        from <= to <= s@.len(),
    ensures
        r@ == s@.subrange(from as int, to as int),
{
    String::from_str(s.substring_char(from, to))
}

/// `lo + skip_white(v[lo..hi], from - lo)`: the first non-whitespace index in `from..hi`.
pub fn skip_white_in(v: &Vec<char>, lo: usize, hi: usize, from: usize) -> (k: usize)
    requires
        lo <= from <= hi <= v@.len(),
    ensures
        k == lo + skip_white(v@.subrange(lo as int, hi as int), from - lo),
        from <= k <= hi,
{
    let ghost line = v@.subrange(lo as int, hi as int);
    let mut k = from;
    while k < hi && is_white_char(v[k])
        invariant
            lo <= from <= k <= hi <= v@.len(),
            line == v@.subrange(lo as int, hi as int),
            skip_white(line, k - lo) == skip_white(line, from - lo),
        decreases hi - k,
    {
        assert(line[k - lo] == v@[k as int]);
        k = k + 1;
    }
    proof {
        if k < hi {
            assert(line[k - lo] == v@[k as int]);
        }
    }
    k
}

/// `lo + word_end(v[lo..hi], from - lo)`: the first whitespace index in `from..hi`.
pub fn word_end_in(v: &Vec<char>, lo: usize, hi: usize, from: usize) -> (k: usize)
    requires
        lo <= from <= hi <= v@.len(),
    ensures
        k == lo + word_end(v@.subrange(lo as int, hi as int), from - lo),
        from <= k <= hi,
{
    let ghost line = v@.subrange(lo as int, hi as int);
    let mut k = from;
    while k < hi && !is_white_char(v[k])
        invariant
            lo <= from <= k <= hi <= v@.len(),
            line == v@.subrange(lo as int, hi as int),
            word_end(line, k - lo) == word_end(line, from - lo),
        decreases hi - k,
    {
        assert(line[k - lo] == v@[k as int]);
        k = k + 1;
    }
    proof {
        if k < hi {
            assert(line[k - lo] == v@[k as int]);
        }
    }
    k
}

/// `lo + skip_white_back(v[lo..hi], hi - lo)`: one past the last non-whitespace index.
pub fn skip_white_back_in(v: &Vec<char>, lo: usize, hi: usize) -> (k: usize)
    requires
        lo <= hi <= v@.len(),
    ensures
        k == lo + skip_white_back(v@.subrange(lo as int, hi as int), hi - lo),
        lo <= k <= hi,
{
    let ghost line = v@.subrange(lo as int, hi as int);
    let mut k = hi;
    while k > lo && is_white_char(v[k - 1])
        invariant
            lo <= k <= hi <= v@.len(),
            line == v@.subrange(lo as int, hi as int),
            skip_white_back(line, k - lo) == skip_white_back(line, hi - lo),
        decreases k,
    {
        assert(line[k - 1 - lo] == v@[k - 1]);
        k = k - 1;
    }
    proof {
        if k > lo {
            assert(line[k - 1 - lo] == v@[k - 1]);
        }
    }
    k
}

/// The characters `lo..hi` of `s` without surrounding whitespace; `v` holds the characters of `s`.
pub fn trimmed_slice(s: &str, v: &Vec<char>, lo: usize, hi: usize) -> (r: String)
    requires
        v@ == s@,
        lo <= hi <= v@.len(),
    ensures
        r@ == trim(s@.subrange(lo as int, hi as int)),
{
    let ghost line = v@.subrange(lo as int, hi as int);
    let a = skip_white_in(v, lo, hi, lo);
    let b = skip_white_back_in(v, lo, hi);
    if a < b {
        let r = slice_string(s, a, b);
        assert(r@ =~= line.subrange(a - lo, b - lo));
        r
    } else {
        String::new()
    }
}

/// Whether `v[lo..hi]` is all whitespace.
pub fn is_blank_in(v: &Vec<char>, lo: usize, hi: usize) -> (r: bool)
    requires
        lo <= hi <= v@.len(),
    ensures
        r == is_blank(v@.subrange(lo as int, hi as int)),
{
    let ghost line = v@.subrange(lo as int, hi as int);
    let k = skip_white_in(v, lo, hi, lo);
    proof {
        lemma_skip_white_bounds(line, 0);
        if k < hi {
            assert(!is_white(line[k - lo]));
        }
    }
    k == hi
}

/// Relies on `String::push`: the character is appended at the end.
#[verifier::external_body]
pub(crate) fn push_char(s: &mut String, c: char)
    ensures
        final(s)@ == old(s)@.push(c),
{
    s.push(c)
}

/// `s` without its last character, when it has one.
pub fn drop_last_char(s: &String) -> (r: String)
    ensures
        s@.len() == 0 ==> r@ == s@,
        s@.len() > 0 ==> r@ == s@.drop_last(),
{
    let n = s.as_str().unicode_len();
    if n == 0 {
        s.clone()
    } else {
        let r = String::from_str(s.as_str().substring_char(0, n - 1));
        assert(r@ =~= s@.drop_last());
        r
    }
}

/// `a`, `b` and `c` one after the other.
pub fn concat3(a: &str, b: &str, c: &str) -> (r: String)
    ensures
        r@ == a@ + b@ + c@,
{
    let mut r = String::from_str(a);
    r.append(b);
    r.append(c);
    r
}

} // verus!
