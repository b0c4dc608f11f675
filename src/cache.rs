//! The result cache: a mapping from file key to measurement in which a key,
//! once present, keeps its first value.

use vstd::prelude::*;

verus! {

/// No two entries share a key.
pub open spec fn keys_distinct<T>(s: Seq<(String, T)>) -> bool {
    forall|i: int, j: int| 0 <= i < j < s.len() ==> s[i].0@ != s[j].0@
}

/// The mapping that a list of entries stands for when it is read front to
/// back and a key keeps the first value given for it.
pub open spec fn entries_map<T>(s: Seq<(String, T)>) -> Map<Seq<char>, T>
    decreases s.len(),
{
    if s.len() == 0 {
        Map::empty()
    } else {
        let m = entries_map(s.drop_last());
        let e = s.last();
        if m.dom().contains(e.0@) {
            m
        } else {
            m.insert(e.0@, e.1)
        }
    }
}

/// A key is in `entries_map(s)` exactly when some entry of `s` carries it.
pub proof fn lemma_entries_map_dom<T>(s: Seq<(String, T)>, k: Seq<char>)
    ensures
        entries_map(s).dom().contains(k) <==> exists|i: int| 0 <= i < s.len() && s[i].0@ == k,
    decreases s.len(),
{
    if s.len() > 0 {
        let p = s.drop_last();
        lemma_entries_map_dom(p, k);
        if exists|i: int| 0 <= i < p.len() && p[i].0@ == k {
            let i = choose|i: int| 0 <= i < p.len() && p[i].0@ == k;
            assert(s[i] == p[i]);
        }
        if exists|i: int| 0 <= i < s.len() && s[i].0@ == k {
            let i = choose|i: int| 0 <= i < s.len() && s[i].0@ == k;
            if i < s.len() - 1 {
                assert(p[i] == s[i]);
            }
        }
    }
}

/// The first entry that carries a key gives its value.
pub proof fn lemma_entries_map_value<T>(s: Seq<(String, T)>, i: int)
    requires
        0 <= i < s.len(),
        forall|j: int| 0 <= j < i ==> s[j].0@ != s[i].0@,
    ensures
        entries_map(s).dom().contains(s[i].0@),
        entries_map(s)[s[i].0@] == s[i].1,
    decreases s.len(),
{
    let p = s.drop_last();
    if i < s.len() - 1 {
        assert(p[i] == s[i]);
        assert(forall|j: int| 0 <= j < i ==> p[j] == s[j]);
        lemma_entries_map_value(p, i);
    } else {
        lemma_entries_map_dom(p, s[i].0@);
        if entries_map(p).dom().contains(s[i].0@) {
            let j = choose|j: int| 0 <= j < p.len() && p[j].0@ == s[i].0@;
            assert(s[j] == p[j]);
        }
    }
}

/// With distinct keys, the mapping has one key per entry.
pub proof fn lemma_entries_map_len<T>(s: Seq<(String, T)>)
    ensures
        entries_map(s).dom().finite(),
        keys_distinct(s) ==> entries_map(s).len() == s.len(),
    decreases s.len(),
{
    if s.len() > 0 {
        let p = s.drop_last();
        lemma_entries_map_len(p);
        if keys_distinct(s) {
            assert(keys_distinct(p)) by {
                assert forall|i: int, j: int| 0 <= i < j < p.len() implies p[i].0@ != p[j].0@ by {
                    assert(p[i] == s[i] && p[j] == s[j]);
                }
            }
            lemma_entries_map_dom(p, s.last().0@);
            if entries_map(p).dom().contains(s.last().0@) {
                let j = choose|j: int| 0 <= j < p.len() && p[j].0@ == s.last().0@;
                assert(s[j] == p[j]);
            }
        }
    }
}

/// Two entry lists that agree on every key and value stand for the same
/// mapping.
pub proof fn lemma_entries_map_same<T>(a: Seq<(String, T)>, b: Seq<(String, T)>)
    requires
        a.len() == b.len(),
        forall|j: int| 0 <= j < a.len() ==> (#[trigger] a[j]).0@ == b[j].0@ && a[j].1 == b[j].1,
    ensures
        entries_map(a) == entries_map(b),
    decreases a.len(),
{
    if a.len() > 0 {
        let (pa, pb) = (a.drop_last(), b.drop_last());
        assert forall|j: int| 0 <= j < pa.len() implies (#[trigger] pa[j]).0@ == pb[j].0@ && pa[j].1
            == pb[j].1 by {
            assert(pa[j] == a[j] && pb[j] == b[j]);
        }
        lemma_entries_map_same(pa, pb);
        assert(a.last() == a[a.len() - 1]);
    }
}

/// Appending an entry whose key is absent adds exactly that key.
proof fn lemma_entries_map_push<T>(s: Seq<(String, T)>, e: (String, T))
    ensures
        entries_map(s.push(e)) == if entries_map(s).dom().contains(e.0@) {
            entries_map(s)
        } else {
            entries_map(s).insert(e.0@, e.1)
        },
{
    assert(s.push(e).drop_last() =~= s);
}

/// Results by file key. Each key holds one value, and the first value stored
/// under a key is never replaced.
pub struct ResultCache<T> {
    entries: Vec<(String, T)>,
}

impl<T> View for ResultCache<T> {
    type V = Map<Seq<char>, T>;

    closed spec fn view(&self) -> Map<Seq<char>, T> {
        entries_map(self.entries@)
    }
}

impl<T> ResultCache<T> {
    /// The stored entries hold each key once.
    pub closed spec fn wf(&self) -> bool {
        keys_distinct(self.entries@)
    }

    /// The entries in the order they were stored.
    pub closed spec fn entry_seq(&self) -> Seq<(String, T)> {
        self.entries@
    }

    /// The entry list is a faithful listing of the mapping.
    pub proof fn lemma_wf_entries(&self)
        requires
            self.wf(),
        ensures
            keys_distinct(self.entry_seq()),
            entries_map(self.entry_seq()) == self@,
            self@.dom().finite(),
            self@.len() == self.entry_seq().len(),
    {
        lemma_entries_map_len(self.entries@);
    }

    /// An empty cache.
    pub fn new() -> (r: Self)
        ensures
            r.wf(),
            r@ == Map::<Seq<char>, T>::empty(),
    {
        ResultCache { entries: Vec::new() }
    }

    /// The position of `key` among the entries, if it is stored.
    fn find(&self, key: &String) -> (r: Option<usize>)
        requires
            self.wf(),
        ensures
            r.is_none() <==> !self@.dom().contains(key@),
            r.is_some() ==> r.unwrap() < self.entries@.len() && self.entries@[r.unwrap() as int].0@
                == key@ && self@[key@] == self.entries@[r.unwrap() as int].1,
    {
        let mut i: usize = 0;
        while i < self.entries.len()
            invariant
                i <= self.entries@.len(),
                forall|j: int| 0 <= j < i ==> self.entries@[j].0@ != key@,
            decreases self.entries@.len() - i,
        {
            if self.entries[i].0 == *key {
                proof {
                    lemma_entries_map_value(self.entries@, i as int);
                }
                return Some(i);
            }
            i = i + 1;
        }
        proof {
            lemma_entries_map_dom(self.entries@, key@);
        }
        None
    }

    /// Whether a result is stored under `key`.
    pub fn contains(&self, key: &String) -> (r: bool)
        requires
            self.wf(),
        ensures
            r == self@.dom().contains(key@),
    {
        self.find(key).is_some()
    }

    /// The result stored under `key`, if any.
    pub fn get(&self, key: &String) -> (r: Option<&T>)
        requires
            self.wf(),
        ensures
            r.is_some() == self@.dom().contains(key@),
            r.is_some() ==> *r.unwrap() == self@[key@],
    {
        match self.find(key) {
            Some(i) => Some(&self.entries[i].1),
            None => None,
        }
    }

    /// The number of stored results.
    pub fn len(&self) -> (r: usize)
        requires
            self.wf(),
        ensures
            r == self@.len(),
    {
        proof {
            lemma_entries_map_len(self.entries@);
        }
        self.entries.len()
    }

    /// Stores `value` under `key` only if the key is absent, and says whether
    /// it did.
    pub fn try_insert(&mut self, key: String, value: T) -> (r: bool)
        requires
            old(self).wf(),
        ensures
            final(self).wf(),
            r == !old(self)@.dom().contains(key@),
            final(self)@ == if r {
                old(self)@.insert(key@, value)
            } else {
                old(self)@
            },
    {
        if self.find(&key).is_some() {
            return false;
        }
        proof {
            lemma_entries_map_dom(self.entries@, key@);
            lemma_entries_map_push(self.entries@, (key, value));
        }
        self.entries.push((key, value));
        true
    }

    /// Builds a cache from entries read front to back; a key that occurs
    /// more than once keeps its first value.
    pub fn from_entries(entries: Vec<(String, T)>) -> (r: Self)
        ensures
            r.wf(),
            r@ == entries_map(entries@),
    {
        let mut cache = ResultCache::new();
        let mut rest = entries;
        let ghost src = entries@;
        let ghost n: int = src.len() as int;
        while rest.len() > 0
            invariant
                cache.wf(),
                rest@.len() <= n,
                n == src.len(),
                src == entries@,
                rest@ == src.subrange(n - rest@.len(), n),
                cache@ == entries_map(src.subrange(0, n - rest@.len())),
            decreases rest@.len(),
        {
            let ghost done = n - rest@.len();
            let ghost before = rest@;
            let e = rest.remove(0);
            proof {
                assert(e == before[0]);
                assert(before[0] == src[done]);
                assert(rest@ =~= src.subrange(done + 1, n));
                assert(src.subrange(0, done + 1) =~= src.subrange(0, done).push(e));
                lemma_entries_map_push(src.subrange(0, done), e);
            }
            cache.try_insert(e.0, e.1);
        }
        assert(src.subrange(0, n) =~= src);
        cache
    }

    /// The stored entries, each key once, in the order they were stored.
    pub fn entries(&self) -> (r: &[(String, T)])
        requires
            self.wf(),
        ensures
            r@ == self.entry_seq(),
            keys_distinct(r@),
            entries_map(r@) == self@,
    {
        self.entries.as_slice()
    }
}

} // verus!
