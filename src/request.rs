use vstd::prelude::*;
use vstd::string::*;

verus! {

/// A header list in the abstract: (name, value) pairs in insertion order.
pub type HeaderSeq = Seq<(Seq<char>, Seq<char>)>;

/// The index of the first entry at or after `i` named `k`, or `h.len()`.
pub open spec fn index_from(h: HeaderSeq, k: Seq<char>, i: int) -> int
    decreases h.len() - i,
{
    if i < 0 || i >= h.len() {
        h.len() as int
    } else if h[i].0 == k {
        i
    } else {
        index_from(h, k, i + 1)
    }
}

/// The index of the entry named `k`, or `h.len()` when there is none.
pub open spec fn index_of(h: HeaderSeq, k: Seq<char>) -> int {
    index_from(h, k, 0)
}

/// The value stored under `k`.
pub open spec fn lookup(h: HeaderSeq, k: Seq<char>) -> Option<Seq<char>> {
    let i = index_of(h, k);
    if i < h.len() {
        Some(h[i].1)
    } else {
        None
    }
}

/// `h` with `k` set to `v`: an existing entry keeps its place, a new one goes last.
pub open spec fn insert_header(h: HeaderSeq, k: Seq<char>, v: Seq<char>) -> HeaderSeq {
    let i = index_of(h, k);
    if i < h.len() {
        h.update(i, (k, v))
    } else {
        h.push((k, v))
    }
}

/// No two entries share a name.
pub open spec fn unique_names(h: HeaderSeq) -> bool {
    forall|i: int, j: int| 0 <= i < j < h.len() ==> h[i].0 != h[j].0
}

/// The headers seen as a mapping from name to value.
pub open spec fn header_map(h: HeaderSeq) -> Map<Seq<char>, Seq<char>> {
    Map::new(|k: Seq<char>| lookup(h, k) is Some, |k: Seq<char>| lookup(h, k)->0)
}

pub proof fn lemma_index_from(h: HeaderSeq, k: Seq<char>, i: int)
    requires
        0 <= i <= h.len(),
    ensures
        i <= index_from(h, k, i) <= h.len(),
        index_from(h, k, i) < h.len() ==> h[index_from(h, k, i)].0 == k,
        forall|j: int| i <= j < index_from(h, k, i) ==> h[j].0 != k,
    decreases h.len() - i,
{
    if i < h.len() && h[i].0 != k {
        lemma_index_from(h, k, i + 1);
    }
}

/// With unique names, the entry named `k` is found wherever it stands.
pub proof fn lemma_index_of_unique(h: HeaderSeq, k: Seq<char>)
    requires
        unique_names(h),
    ensures
        forall|j: int| 0 <= j < h.len() && h[j].0 == k ==> index_of(h, k) == j,
        (forall|j: int| 0 <= j < h.len() ==> h[j].0 != k) ==> index_of(h, k) == h.len(),
{
    lemma_index_from(h, k, 0);
}

pub proof fn lemma_insert_unique(h: HeaderSeq, k: Seq<char>, v: Seq<char>)
    requires
        unique_names(h),
    ensures
        unique_names(insert_header(h, k, v)),
        insert_header(h, k, v).len() == h.len() || insert_header(h, k, v).len() == h.len() + 1,
{
    lemma_index_from(h, k, 0);
}

/// The abstract form of a list of (name, value) strings.
pub open spec fn entries_view(v: Seq<(String, String)>) -> HeaderSeq {
    v.map_values(|e: (String, String)| (e.0@, e.1@))
}

/// Header name/value pairs with unique names, kept in the order in which names first came.
#[derive(Debug)]
pub struct Headers {
    entries: Vec<(String, String)>,
}

impl View for Headers {
    type V = HeaderSeq;

    closed spec fn view(&self) -> HeaderSeq {
        entries_view(self.entries@)
    }
}

impl Headers {
    #[verifier::type_invariant]
    spec fn inv(&self) -> bool {
        unique_names(self@)
    }

    pub fn new() -> (r: Headers)
        ensures
            r@ == Seq::<(Seq<char>, Seq<char>)>::empty(),
    {
        let r = Headers { entries: Vec::new() };
        assert(r@ =~= Seq::<(Seq<char>, Seq<char>)>::empty());
        r
    }

    /// The number of entries.
    pub fn len(&self) -> (r: usize)
        ensures
            r == self@.len(),
    {
        self.entries.len()
    }

    pub fn is_empty(&self) -> (r: bool)
        ensures
            r == (self@.len() == 0),
    {
        self.entries.len() == 0
    }

    /// The entries in order.
    pub fn entries(&self) -> (r: &Vec<(String, String)>)
        ensures
            entries_view(r@) == self@,
    {
        &self.entries
    }

    fn find(&self, name: &str) -> (i: usize)
        ensures
            i == index_of(self@, name@),
    {
        let key = String::from_str(name);
        let mut i: usize = 0;
        while i < self.entries.len()
            invariant
                0 <= i <= self.entries@.len(),
                key@ == name@,
                index_from(self@, name@, i as int) == index_of(self@, name@),
            decreases self.entries@.len() - i,
        {
            assert(self@[i as int].0 == self.entries@[i as int].0@);
            if self.entries[i].0 == key {
                return i;
            }
            i = i + 1;
        }
        i
    }

    /// The value stored under `name`.
    pub fn get(&self, name: &str) -> (r: Option<&String>)
        ensures
            match r {
                Some(v) => lookup(self@, name@) == Some(v@),
                None => lookup(self@, name@) is None,
            },
    {
        let i = self.find(name);
        if i < self.entries.len() {
            Some(&self.entries[i].1)
        } else {
            None
        }
    }

    /// Sets `name` to `value`, in place where `name` is present, else as a new last entry.
    pub fn insert(&mut self, name: String, value: String)
        ensures
            final(self)@ == insert_header(old(self)@, name@, value@),
    {
        proof {
            use_type_invariant(&*self);
            lemma_insert_unique(self@, name@, value@);
        }
        let i = self.find(name.as_str());
        let mut taken = Headers::new();
        std::mem::swap(self, &mut taken);
        let Headers { mut entries } = taken;
        if i < entries.len() {
            entries.set(i, (name, value));
        } else {
            entries.push((name, value));
        }
        let ghost updated = entries_view(entries@);
        assert(updated =~= insert_header(old(self)@, name@, value@));
        *self = Headers { entries };
    }
}

impl Clone for Headers {
    fn clone(&self) -> (r: Headers)
        ensures
            r@ == self@,
    {
        proof {
            use_type_invariant(self);
        }
        let mut entries: Vec<(String, String)> = Vec::new();
        let mut i: usize = 0;
        while i < self.entries.len()
            invariant
                0 <= i <= self.entries@.len(),
                entries_view(entries@) == self@.take(i as int),
            decreases self.entries@.len() - i,
        {
            let name = self.entries[i].0.clone();
            let value = self.entries[i].1.clone();
            assert(self@[i as int] == (self.entries@[i as int].0@, self.entries@[i as int].1@));
            let ghost prev = entries@;
            entries.push((name, value));
            assert(entries@ == prev.push((name, value)));
            assert(entries_view(entries@) == entries_view(prev).push((name@, value@)));
            i = i + 1;
            assert(entries_view(entries@) =~= self@.take(
                i as int,
            ));
        }
        assert(self@.take(i as int) =~= self@);
        Headers { entries }
    }
}

/// Equal headers hold the same names with the same values, in whatever order.
impl PartialEq for Headers {
    fn eq(&self, other: &Headers) -> (r: bool)
        ensures
            r == (header_map(self@) == header_map(other@)),
    {
        proof {
            use_type_invariant(self);
            use_type_invariant(other);
        }
        if self.entries.len() != other.entries.len() {
            proof {
                if header_map(self@) == header_map(other@) {
                    lemma_same_map_same_len(self@, other@);
                }
            }
            return false;
        }
        let mut i: usize = 0;
        while i < self.entries.len()
            invariant
                0 <= i <= self.entries@.len(),
                self.entries@.len() == other.entries@.len(),
                unique_names(self@),
                unique_names(other@),
                forall|j: int|
                    0 <= j < i ==> lookup(other@, #[trigger] self@[j].0) == Some(self@[j].1),
            decreases self.entries@.len() - i,
        {
            let name = self.entries[i].0.as_str();
            assert(self@[i as int] == (self.entries@[i as int].0@, self.entries@[i as int].1@));
            match other.get(name) {
                Some(v) => {
                    if *v != self.entries[i].1 {
                        proof {
                            lemma_index_of_unique(self@, self@[i as int].0);
                            assert(header_map(self@)[self@[i as int].0] != header_map(
                                other@,
                            )[self@[i as int].0]);
                        }
                        return false;
                    }
                },
                None => {
                    proof {
                        lemma_index_of_unique(self@, self@[i as int].0);
                        assert(header_map(self@).contains_key(self@[i as int].0));
                        assert(!header_map(other@).contains_key(self@[i as int].0));
                    }
                    return false;
                },
            }
            i = i + 1;
        }
        proof {
            lemma_contained_same_len(self@, other@);
        }
        true
    }
}

impl vstd::std_specs::cmp::PartialEqSpecImpl for Headers {
    open spec fn obeys_eq_spec() -> bool {
        true
    }

    open spec fn eq_spec(&self, other: &Headers) -> bool {
        header_map(self@) == header_map(other@)
    }
}

/// The names of `h`, as a set.
pub open spec fn names(h: HeaderSeq) -> Set<Seq<char>> {
    Set::new(|k: Seq<char>| exists|i: int| 0 <= i < h.len() && h[i].0 == k)
}

proof fn lemma_names(h: HeaderSeq)
    requires
        unique_names(h),
    ensures
        names(h).finite(),
        names(h).len() == h.len(),
        header_map(h).dom() == names(h),
    decreases h.len(),
{
    lemma_index_of_unique(h, Seq::empty());
    assert forall|k: Seq<char>| header_map(h).dom().contains(k) <==> names(h).contains(k) by {
        lemma_index_from(h, k, 0);
        if names(h).contains(k) {
            let i = choose|i: int| 0 <= i < h.len() && h[i].0 == k;
            lemma_index_of_unique(h, k);
        }
    }
    assert(header_map(h).dom() =~= names(h));
    if h.len() == 0 {
        assert(names(h) =~= Set::empty());
    } else {
        let t = h.drop_last();
        assert(unique_names(t));
        lemma_names(t);
        assert forall|k: Seq<char>| names(h).contains(k) <==> names(t).insert(
            h.last().0,
        ).contains(k) by {
            if names(h).contains(k) && k != h.last().0 {
                let i = choose|i: int| 0 <= i < h.len() && h[i].0 == k;
                assert(t[i].0 == k);
            }
            if names(t).contains(k) {
                let i = choose|i: int| 0 <= i < t.len() && t[i].0 == k;
                assert(h[i].0 == k);
            }
            if k == h.last().0 {
                assert(h[h.len() - 1].0 == k);
            }
        }
        assert(names(h) =~= names(t).insert(h.last().0));
        if names(t).contains(h.last().0) {
            let i = choose|i: int| 0 <= i < t.len() && t[i].0 == h.last().0;
            assert(h[i].0 == h[h.len() - 1].0);
        }
    }
}

proof fn lemma_same_map_same_len(a: HeaderSeq, b: HeaderSeq)
    requires
        unique_names(a),
        unique_names(b),
        header_map(a) == header_map(b),
    ensures
        a.len() == b.len(),
{
    lemma_names(a);
    lemma_names(b);
}

proof fn lemma_contained_same_len(a: HeaderSeq, b: HeaderSeq)
    requires
        unique_names(a),
        unique_names(b),
        a.len() == b.len(),
        forall|j: int| 0 <= j < a.len() ==> lookup(b, #[trigger] a[j].0) == Some(a[j].1),
    ensures
        header_map(a) == header_map(b),
{
    lemma_names(a);
    lemma_names(b);
    assert(names(a).subset_of(names(b))) by {
        assert forall|k: Seq<char>| names(a).contains(k) implies names(b).contains(k) by {
            let j = choose|j: int| 0 <= j < a.len() && a[j].0 == k;
            assert(lookup(b, a[j].0) is Some);
            assert(header_map(b).dom().contains(k));
        }
    }
    vstd::set_lib::lemma_subset_equality(names(a), names(b));
    assert forall|k: Seq<char>| #[trigger] header_map(a).contains_key(k) implies header_map(
        a,
    )[k] == header_map(b)[k] by {
        let j = choose|j: int| 0 <= j < a.len() && a[j].0 == k;
        lemma_index_of_unique(a, k);
    }
    assert(header_map(a) =~= header_map(b));
}

/// An HTTP request in the abstract.
pub struct RequestView {
    pub method: Seq<char>,
    pub url: Seq<char>,
    pub headers: HeaderSeq,
    pub body: Option<Seq<char>>,
}

/// An HTTP request: method, URL, headers and an optional body.
#[derive(Debug, Clone, PartialEq)]
pub struct Request {
    pub method: String,
    pub url: String,
    pub headers: Headers,
    pub body: Option<String>,
}

pub open spec fn opt_view(o: Option<String>) -> Option<Seq<char>> {
    match o {
        Some(s) => Some(s@),
        None => None,
    }
}

impl View for Request {
    type V = RequestView;

    open spec fn view(&self) -> RequestView {
        RequestView {
            method: self.method@,
            url: self.url@,
            headers: self.headers@,
            body: opt_view(self.body),
        }
    }
}

impl Request {
    /// A request with no headers and no body.
    pub fn new(method: &str, url: &str) -> (r: Request)
        ensures
            r.method@ == method@,
            r.url@ == url@,
            r.headers@.len() == 0,
            r.body is None,
    {
        Request {
            method: method.to_string(),
            url: url.to_string(),
            headers: Headers::new(),
            body: None,
        }
    }
}

} // verus!
