use vstd::prelude::*;

use crate::text::chars_of;

verus! {

broadcast use vstd::seq_lib::group_to_multiset_ensures;

/// `a` comes no later than `b` when both are compared from index `i` on, character by
/// character, a prefix coming first.
pub open spec fn text_le_from(a: Seq<char>, b: Seq<char>, i: int) -> bool
    decreases a.len() - i,
{
    if i < 0 || i >= a.len() {
        true
    } else if i >= b.len() {
        false
    } else if a[i] != b[i] {
        (a[i] as int) < (b[i] as int)
    } else {
        text_le_from(a, b, i + 1)
    }
}

/// Lexicographic order by character, the order of `str`'s `Ord`.
pub open spec fn text_le(a: Seq<char>, b: Seq<char>) -> bool {
    text_le_from(a, b, 0)
}

/// The views of a list of strings.
pub open spec fn texts(v: Seq<String>) -> Seq<Seq<char>> {
    v.map_values(|s: String| s@)
}

/// Every text comes no later than those after it.
pub open spec fn sorted_texts(s: Seq<Seq<char>>) -> bool {
    forall|i: int, j: int| 0 <= i < j < s.len() ==> text_le(s[i], s[j])
}

proof fn lemma_text_le_total_from(a: Seq<char>, b: Seq<char>, i: int)
    requires
        0 <= i,
    ensures
        text_le_from(a, b, i) || text_le_from(b, a, i),
    decreases a.len() - i,
{
    if i < a.len() && i < b.len() {
        if a[i] == b[i] {
            lemma_text_le_total_from(a, b, i + 1);
        } else {
            assert((a[i] as int) != (b[i] as int));
        }
    }
}

proof fn lemma_text_le_trans_from(a: Seq<char>, b: Seq<char>, c: Seq<char>, i: int)
    requires
        0 <= i,
        text_le_from(a, b, i),
        text_le_from(b, c, i),
    ensures
        text_le_from(a, c, i),
    decreases a.len() - i,
{
    if i < a.len() && a[i] == b[i] && b[i] == c[i] {
        lemma_text_le_trans_from(a, b, c, i + 1);
    }
}

pub proof fn lemma_text_le_total(a: Seq<char>, b: Seq<char>)
    ensures
        text_le(a, b) || text_le(b, a),
{
    lemma_text_le_total_from(a, b, 0);
}

pub proof fn lemma_text_le_trans(a: Seq<char>, b: Seq<char>, c: Seq<char>)
    requires
        text_le(a, b),
        text_le(b, c),
    ensures
        text_le(a, c),
{
    lemma_text_le_trans_from(a, b, c, 0);
}

/// Whether `a` comes no later than `b`.
pub fn text_le_exec(a: &str, b: &str) -> (r: bool)
    ensures
        r == text_le(a@, b@),
{
    let x = chars_of(a);
    let y = chars_of(b);
    let mut i: usize = 0;
    while i < x.len() && i < y.len() && x[i] == y[i]
        invariant
            0 <= i <= x@.len(),
            x@ == a@,
            y@ == b@,
            text_le_from(a@, b@, i as int) == text_le(a@, b@),
        decreases x@.len() - i,
    {
        i = i + 1;
    }
    if i >= x.len() {
        true
    } else if i >= y.len() {
        false
    } else {
        x[i] < y[i]
    }
}

/// The strings of `v` in lexicographic order.
pub fn sort_texts(v: Vec<String>) -> (r: Vec<String>)
    ensures
        sorted_texts(texts(r@)),
        texts(r@).to_multiset() == texts(v@).to_multiset(),
{
    let mut r: Vec<String> = Vec::new();
    let mut i: usize = 0;
    let ghost vs = texts(v@);
    while i < v.len()
        invariant
            0 <= i <= v@.len(),
            vs == texts(v@),
            sorted_texts(texts(r@)),
            texts(r@).to_multiset() == vs.take(i as int).to_multiset(),
        decreases v@.len() - i,
    {
        let x = v[i].clone();
        let mut k: usize = 0;
        while k < r.len() && text_le_exec(r[k].as_str(), x.as_str())
            invariant
                0 <= k <= r@.len(),
                x@ == vs[i as int],
                vs == texts(v@),
                i < v@.len(),
                forall|j: int| 0 <= j < k ==> text_le(#[trigger] r@[j]@, x@),
            decreases r@.len() - k,
        {
            k = k + 1;
        }
        let ghost before = texts(r@);
        proof {
            if k < r.len() {
                assert(!text_le(before[k as int], x@));
                lemma_text_le_total(before[k as int], x@);
            }
        }
        r.insert(k, x);
        proof {
            assert(texts(r@) =~= before.insert(k as int, x@));
            let t = texts(r@);
            assert forall|p: int, q: int| 0 <= p < q < t.len() implies text_le(t[p], t[q]) by {
                if p < k && q == k {
                    assert(t[p] == before[p]);
                } else if p == k && q > k {
                    assert(t[q] == before[q - 1]);
                    if q - 1 > k {
                        assert(text_le(before[k as int], before[q - 1]));
                        lemma_text_le_trans(x@, before[k as int], before[q - 1]);
                    }
                } else if p < k && q > k {
                    assert(t[p] == before[p]);
                    assert(t[q] == before[q - 1]);
                } else if p > k {
                    assert(t[p] == before[p - 1]);
                    assert(t[q] == before[q - 1]);
                } else {
                    assert(t[p] == before[p]);
                    assert(t[q] == before[q]);
                }
            }
            assert(vs.take(i as int + 1) =~= vs.take(i as int).push(vs[i as int]));
        }
        i = i + 1;
    }
    assert(vs.take(i as int) =~= vs);
    r
}

} // verus!
