use vstd::prelude::*;

verus! {

/// Relies on `str`'s `PartialEq`: two string slices compare equal exactly
/// when their character sequences are equal.
#[verifier::external_body]
fn str_eq(a: &str, b: &str) -> (r: bool)
    ensures
        r == (a@ == b@),
{
    a == b
}

spec fn distinct_keys<V>(s: Seq<(String, V)>) -> bool {
    forall|i: int, j: int|
        0 <= i < s.len() && 0 <= j < s.len() && i != j ==> s[i].0@ != s[j].0@
}

spec fn seq_has_key<V>(s: Seq<(String, V)>, k: Seq<char>) -> bool {
    exists|i: int| 0 <= i < s.len() && s[i].0@ == k
}

spec fn seq_key_idx<V>(s: Seq<(String, V)>, k: Seq<char>) -> int {
    choose|i: int| 0 <= i < s.len() && s[i].0@ == k
}

spec fn as_map<V>(s: Seq<(String, V)>) -> Map<Seq<char>, V> {
    Map::new(|k: Seq<char>| seq_has_key(s, k), |k: Seq<char>| s[seq_key_idx(s, k)].1)
}

proof fn lemma_idx_unique<V>(s: Seq<(String, V)>, k: Seq<char>, i: int)
    requires
        distinct_keys(s),
        0 <= i < s.len(),
        s[i].0@ == k,
    ensures
        seq_has_key(s, k),
        seq_key_idx(s, k) == i,
        as_map(s).contains_key(k),
        as_map(s)[k] == s[i].1,
{
    assert(seq_has_key(s, k));
    let j = seq_key_idx(s, k);
    assert(0 <= j < s.len() && s[j].0@ == k);
    if j != i {
        assert(s[i].0@ != s[j].0@);
    }
}

proof fn lemma_as_map_remove<V>(s: Seq<(String, V)>, k: Seq<char>, i: int)
    requires
        distinct_keys(s),
        0 <= i < s.len(),
        s[i].0@ == k,
    ensures
        distinct_keys(s.remove(i)),
        !seq_has_key(s.remove(i), k),
        as_map(s.remove(i)) =~= as_map(s).remove(k),
{
    let s2 = s.remove(i);
    assert(forall|a: int| 0 <= a < s2.len() ==> s2[a] == (if a < i {
        s[a]
    } else {
        s[a + 1]
    }));
    assert forall|k2: Seq<char>| #[trigger] seq_has_key(s2, k2) implies k2 != k && seq_has_key(
        s,
        k2,
    ) by {
        let a = choose|a: int| 0 <= a < s2.len() && s2[a].0@ == k2;
        let b: int = if a < i {
            a
        } else {
            a + 1
        };
        assert(s[b].0@ == k2);
        assert(b != i ==> s[b].0@ != s[i].0@);
    }
    assert forall|k2: Seq<char>| seq_has_key(s, k2) && k2 != k implies seq_has_key(s2, k2) by {
        let b = choose|b: int| 0 <= b < s.len() && s[b].0@ == k2;
        assert(b != i);
        let a: int = if b < i {
            b
        } else {
            b - 1
        };
        assert(s2[a].0@ == k2);
    }
    assert forall|k2: Seq<char>| #[trigger] seq_has_key(s2, k2) implies as_map(s2)[k2] == as_map(
        s,
    ).remove(k)[k2] by {
        let a = seq_key_idx(s2, k2);
        assert(0 <= a < s2.len() && s2[a].0@ == k2);
        let b: int = if a < i {
            a
        } else {
            a + 1
        };
        lemma_idx_unique(s, k2, b);
        assert(as_map(s2)[k2] == s2[a].1);
        assert(s2[a].1 == s[b].1);
    }
    assert(as_map(s2) =~= as_map(s).remove(k));
}

proof fn lemma_as_map_push<V>(s: Seq<(String, V)>, k: Seq<char>, e: (String, V))
    requires
        distinct_keys(s),
        !seq_has_key(s, k),
        e.0@ == k,
    ensures
        distinct_keys(s.push(e)),
        as_map(s.push(e)) =~= as_map(s).insert(k, e.1),
{
    let s2 = s.push(e);
    assert forall|a: int, b: int|
        0 <= a < s2.len() && 0 <= b < s2.len() && a != b implies s2[a].0@ != s2[b].0@ by {
        if a < s.len() && b < s.len() {
            assert(s2[a] == s[a] && s2[b] == s[b]);
        } else if a < s.len() {
            assert(s2[b] == e);
            assert(s2[a] == s[a]);
            assert(s[a].0@ != k);
        } else {
            assert(s2[a] == e);
            assert(s2[b] == s[b]);
            assert(s[b].0@ != k);
        }
    }
    assert forall|k2: Seq<char>| #[trigger] seq_has_key(s2, k2) implies as_map(s).insert(
        k,
        e.1,
    ).contains_key(k2) && as_map(s2)[k2] == as_map(s).insert(k, e.1)[k2] by {
        let a = seq_key_idx(s2, k2);
        assert(0 <= a < s2.len() && s2[a].0@ == k2);
        lemma_idx_unique(s2, k2, a);
        if a < s.len() {
            assert(s2[a] == s[a]);
            lemma_idx_unique(s, k2, a);
            assert(k2 != k);
        } else {
            assert(s2[a] == e);
            assert(k2 == k);
        }
    }
    assert forall|k2: Seq<char>| as_map(s).insert(k, e.1).contains_key(k2) implies seq_has_key(
        s2,
        k2,
    ) by {
        if k2 == k {
            assert(s2[s.len() as int].0@ == k);
        } else {
            let b = seq_key_idx(s, k2);
            assert(0 <= b < s.len() && s[b].0@ == k2);
            assert(s2[b].0@ == k2);
        }
    }
    assert(as_map(s2) =~= as_map(s).insert(k, e.1));
}

/// A mapping from string keys to owned values, kept as a vector of entries
/// with pairwise distinct keys. Lookup, insertion and removal walk the
/// entries; the abstract state is a `Map` from character sequences to values.
pub struct Store<V> {
    entries: Vec<(String, V)>,
}

impl<V> View for Store<V> {
    type V = Map<Seq<char>, V>;

    closed spec fn view(&self) -> Map<Seq<char>, V> {
        as_map(self.entries@)
    }
}

impl<V> Store<V> {
    #[verifier::type_invariant]
    spec fn wf(&self) -> bool {
        distinct_keys(self.entries@)
    }

    /// The number of entries held.
    pub closed spec fn spec_len(&self) -> nat {
        self.entries@.len()
    }

    /// The key of the entry at position `i` in the store's walking order.
    pub closed spec fn key_at(&self, i: int) -> Seq<char> {
        self.entries@[i].0@
    }

    /// Creates an empty store.
    pub fn new() -> (r: Self)
        ensures
            r@ == Map::<Seq<char>, V>::empty(),
            r.spec_len() == 0,
    {
        let r = Store { entries: Vec::new() };
        proof {
            assert(r@ =~= Map::<Seq<char>, V>::empty());
        }
        r
    }

    fn find(&self, k: &str) -> (r: Option<usize>)
        ensures
            match r {
                Some(i) => i < self.spec_len() && self.key_at(i as int) == k@
                    && self@.contains_key(k@),
                None => !self@.contains_key(k@),
            },
    {
        proof {
            use_type_invariant(&*self);
        }
        let mut i: usize = 0;
        while i < self.entries.len()
            invariant
                i <= self.entries@.len(),
                distinct_keys(self.entries@),
                forall|j: int| 0 <= j < i ==> self.entries@[j].0@ != k@,
            decreases self.entries@.len() - i,
        {
            if str_eq(self.entries[i].0.as_str(), k) {
                proof {
                    lemma_idx_unique(self.entries@, k@, i as int);
                }
                return Some(i);
            }
            i += 1;
        }
        proof {
            assert(!seq_has_key(self.entries@, k@));
            if self@.contains_key(k@) {
                assert(seq_has_key(self.entries@, k@));
            }
        }
        None
    }

    /// Returns the number of entries. Besides the count itself, the contract
    /// states how the walking order enumerates the mapping: every position
    /// holds a key of the mapping, every key of the mapping appears at some
    /// position, and no key appears at two positions.
    pub fn n_entries(&self) -> (r: usize)
        ensures
            r == self.spec_len(),
            forall|i: int|
                0 <= i < self.spec_len() ==> #[trigger] self@.contains_key(self.key_at(i)),
            forall|k: Seq<char>|
                #[trigger] self@.contains_key(k) ==> exists|i: int|
                    0 <= i < self.spec_len() && self.key_at(i) == k,
            forall|i: int, j: int|
                0 <= i < self.spec_len() && 0 <= j < self.spec_len() && i != j ==> self.key_at(i)
                    != self.key_at(j),
    {
        proof {
            use_type_invariant(&*self);
            assert forall|i: int|
                0 <= i < self.spec_len() implies #[trigger] self@.contains_key(self.key_at(i)) by {
                lemma_idx_unique(self.entries@, self.entries@[i].0@, i);
            }
            assert forall|k: Seq<char>| #[trigger] self@.contains_key(k) implies exists|i: int|
                0 <= i < self.spec_len() && self.key_at(i) == k by {
                let i = seq_key_idx(self.entries@, k);
                assert(0 <= i < self.spec_len() && self.key_at(i) == k);
            }
        }
        self.entries.len()
    }

    /// Returns whether the store holds no entry.
    pub fn is_empty(&self) -> (r: bool)
        ensures
            r == (self@ == Map::<Seq<char>, V>::empty()),
    {
        proof {
            use_type_invariant(&*self);
        }
        let r = self.entries.len() == 0;
        proof {
            if self.entries.len() == 0 {
                assert(self@ =~= Map::<Seq<char>, V>::empty());
            } else {
                lemma_idx_unique(self.entries@, self.entries@[0].0@, 0);
                assert(self@.contains_key(self.entries@[0].0@));
            }
        }
        r
    }

    /// Looks a key up and borrows its value.
    pub fn get<'a>(&'a self, k: &str) -> (r: Option<&'a V>)
        ensures
            match r {
                Some(v) => self@.contains_key(k@) && *v == self@[k@],
                None => !self@.contains_key(k@),
            },
    {
        proof {
            use_type_invariant(&*self);
        }
        match self.find(k) {
            Some(i) => {
                proof {
                    lemma_idx_unique(self.entries@, k@, i as int);
                }
                Some(&self.entries[i].1)
            },
            None => None,
        }
    }

    /// Borrows the entry at a position in the walking order.
    pub fn entry_at<'a>(&'a self, i: usize) -> (r: (&'a String, &'a V))
        requires
            i < self.spec_len(),
        ensures
            r.0@ == self.key_at(i as int),
            self@.contains_key(r.0@),
            *r.1 == self@[r.0@],
    {
        proof {
            use_type_invariant(&*self);
            lemma_idx_unique(self.entries@, self.entries@[i as int].0@, i as int);
        }
        (&self.entries[i].0, &self.entries[i].1)
    }

    /// Borrows every value, in the walking order.
    pub fn values<'a>(&'a self) -> (r: Vec<&'a V>)
        ensures
            r@.len() == self.spec_len(),
            forall|i: int|
                0 <= i < r@.len() ==> #[trigger] self@.contains_key(self.key_at(i)) && *r@[i]
                    == self@[self.key_at(i)],
    {
        proof {
            use_type_invariant(&*self);
        }
        let mut r: Vec<&V> = Vec::new();
        let mut i: usize = 0;
        while i < self.entries.len()
            invariant
                i <= self.entries@.len(),
                r@.len() == i,
                distinct_keys(self.entries@),
                self@ == as_map(self.entries@),
                forall|j: int| 0 <= j < i ==> #[trigger] self@.contains_key(self.key_at(j)),
                forall|j: int| 0 <= j < i ==> *(#[trigger] r@[j]) == self@[self.key_at(j)],
            decreases self.entries@.len() - i,
        {
            let v_ref = &self.entries[i].1;
            r.push(v_ref);
            proof {
                lemma_idx_unique(self.entries@, self.entries@[i as int].0@, i as int);
                assert(*r@[i as int] == self.entries@[i as int].1);
                assert(self@[self.key_at(i as int)] == self.entries@[i as int].1);
            }
            i += 1;
        }
        r
    }

    /// Removes the entry with the given key, handing back its owned key and
    /// value; absent keys leave the store unchanged.
    pub fn take(&mut self, k: &str) -> (r: Option<(String, V)>)
        ensures
            match r {
                Some(p) => p.0@ == k@ && old(self)@.contains_key(k@) && p.1 == old(self)@[k@]
                    && final(self)@ == old(self)@.remove(k@),
                None => !old(self)@.contains_key(k@) && *final(self) == *old(self),
            },
    {
        proof {
            use_type_invariant(&*self);
        }
        match self.find(k) {
            None => None,
            Some(i) => {
                let mut es: Vec<(String, V)> = Vec::new();
                std::mem::swap(&mut es, &mut self.entries);
                let ghost s0 = es@;
                let p = es.remove(i);
                proof {
                    lemma_idx_unique(s0, k@, i as int);
                    lemma_as_map_remove(s0, k@, i as int);
                }
                self.entries = es;
                Some(p)
            },
        }
    }

    /// Removes the entry with the given key, if present.
    pub fn remove(&mut self, k: &str)
        ensures
            final(self)@ == old(self)@.remove(k@),
    {
        let r = self.take(k);
        proof {
            if r is None {
                assert(self@ =~= old(self)@.remove(k@));
            }
        }
    }

    /// Inserts a value under a key, overwriting any entry the key already
    /// had.
    pub fn insert(&mut self, k: String, v: V)
        ensures
            final(self)@ == old(self)@.insert(k@, v),
    {
        let _taken = self.take(k.as_str());
        proof {
            use_type_invariant(&*self);
            if self@.contains_key(k@) {
                assert(seq_has_key(self.entries@, k@));
                let i = seq_key_idx(self.entries@, k@);
                lemma_idx_unique(self.entries@, k@, i);
                assert(false);
            }
        }
        let mut es: Vec<(String, V)> = Vec::new();
        std::mem::swap(&mut es, &mut self.entries);
        let ghost s1 = es@;
        let ghost kv = k@;
        es.push((k, v));
        proof {
            lemma_as_map_push(s1, kv, es@.last());
            assert(es@ == s1.push(es@.last()));
            assert(as_map(es@) =~= as_map(s1).insert(kv, v));
            assert(old(self)@.remove(kv).insert(kv, v) =~= old(self)@.insert(kv, v));
        }
        self.entries = es;
    }
}

} // verus!
