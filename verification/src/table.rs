//! A small map keyed by strings that remembers the order in which keys
//! were first inserted; the variable store and the scene table use it.
use vstd::prelude::*;

verus! {

/// The value stored under `k` in a list of pairs, the last pair with that
/// key winning.
pub open spec fn lookup<V>(s: Seq<(Seq<char>, V)>, k: Seq<char>) -> Option<V>
    decreases s.len(),
{
    if s.len() == 0 {
        None
    } else if s.last().0 == k {
        Some(s.last().1)
    } else {
        lookup(s.drop_last(), k)
    }
}

/// The map that a list of pairs stands for.
pub open spec fn pairs_map<V>(s: Seq<(Seq<char>, V)>) -> Map<Seq<char>, V> {
    Map::new(|k: Seq<char>| lookup(s, k) is Some, |k: Seq<char>| lookup(s, k)->0)
}

/// No key occurs twice in the list.
pub open spec fn distinct_keys<V>(s: Seq<(Seq<char>, V)>) -> bool {
    forall|i: int, j: int| 0 <= i < s.len() && 0 <= j < s.len() && i != j ==> s[i].0 != s[j].0
}

pub proof fn lemma_lookup_found<V>(s: Seq<(Seq<char>, V)>, i: int)
    requires
        distinct_keys(s),
        0 <= i < s.len(),
    ensures
        lookup(s, s[i].0) == Some(s[i].1),
    decreases s.len(),
{
    if i < s.len() - 1 {
        assert(s[s.len() - 1].0 != s[i].0);
        assert(s.drop_last()[i] == s[i]);
        lemma_lookup_found(s.drop_last(), i);
    }
}

pub proof fn lemma_lookup_absent<V>(s: Seq<(Seq<char>, V)>, k: Seq<char>)
    requires
        forall|i: int| 0 <= i < s.len() ==> s[i].0 != k,
    ensures
        lookup(s, k) is None,
    decreases s.len(),
{
    if s.len() > 0 {
        assert(s[s.len() - 1].0 != k);
        assert forall|i: int| 0 <= i < s.drop_last().len() implies s.drop_last()[i].0 != k by {
            assert(s.drop_last()[i] == s[i]);
        }
        lemma_lookup_absent(s.drop_last(), k);
    }
}

pub proof fn lemma_lookup_some<V>(s: Seq<(Seq<char>, V)>, k: Seq<char>)
    requires
        lookup(s, k) is Some,
    ensures
        exists|i: int| 0 <= i < s.len() && s[i].0 == k && s[i].1 == lookup(s, k)->0,
    decreases s.len(),
{
    if s.last().0 != k {
        lemma_lookup_some(s.drop_last(), k);
        let i = choose|i: int| 0 <= i < s.drop_last().len() && s.drop_last()[i].0 == k
            && s.drop_last()[i].1 == lookup(s.drop_last(), k)->0;
        assert(s[i] == s.drop_last()[i]);
    } else {
        assert(s[s.len() - 1].0 == k);
    }
}

pub proof fn lemma_lookup_push<V>(s: Seq<(Seq<char>, V)>, k: Seq<char>, v: V)
    ensures
        pairs_map(s.push((k, v))) == pairs_map(s).insert(k, v),
{
    assert forall|q: Seq<char>| #[trigger] lookup(s.push((k, v)), q) == (if q == k {
        Some(v)
    } else {
        lookup(s, q)
    }) by {
        assert(s.push((k, v)).drop_last() =~= s);
    }
    assert(pairs_map(s.push((k, v))) =~= pairs_map(s).insert(k, v));
}

pub proof fn lemma_lookup_update<V>(s: Seq<(Seq<char>, V)>, i: int, v: V)
    requires
        distinct_keys(s),
        0 <= i < s.len(),
    ensures
        pairs_map(s.update(i, (s[i].0, v))) == pairs_map(s).insert(s[i].0, v),
        distinct_keys(s.update(i, (s[i].0, v))),
{
    let t = s.update(i, (s[i].0, v));
    assert(distinct_keys(t));
    assert forall|q: Seq<char>| #[trigger] lookup(t, q) == (if q == s[i].0 {
        Some(v)
    } else {
        lookup(s, q)
    }) by {
        if q == s[i].0 {
            lemma_lookup_found(t, i);
        } else {
            if exists|j: int| 0 <= j < s.len() && s[j].0 == q {
                let j = choose|j: int| 0 <= j < s.len() && s[j].0 == q;
                lemma_lookup_found(s, j);
                lemma_lookup_found(t, j);
            } else {
                lemma_lookup_absent(s, q);
                lemma_lookup_absent(t, q);
            }
        }
    }
    assert(pairs_map(t) =~= pairs_map(s).insert(s[i].0, v));
}

/// A string-keyed map that keeps its entries in insertion order.
pub struct Table<V: View> {
    entries: Vec<(String, V)>,
}

impl<V: View> Table<V> {
    /// The entries as plain values, in insertion order.
    pub closed spec fn pairs(&self) -> Seq<(Seq<char>, V::V)> {
        self.entries@.map_values(|e: (String, V)| (e.0@, e.1@))
    }

    /// No key occurs twice among the entries.
    #[verifier::type_invariant]
    pub closed spec fn inv(self) -> bool {
        distinct_keys(self.pairs())
    }

    /// An empty table.
    pub fn new() -> (t: Self)
        ensures
            t.pairs() == Seq::<(Seq<char>, V::V)>::empty(),
    {
        let t = Table { entries: Vec::new() };
        assert(t.pairs() =~= Seq::<(Seq<char>, V::V)>::empty());
        t
    }

    /// The number of entries.
    pub fn len(&self) -> (n: usize)
        ensures
            n == self.pairs().len(),
    {
        self.entries.len()
    }

    /// The key and value of entry `i`.
    pub fn entry(&self, i: usize) -> (r: (&String, &V))
        requires
            i < self.pairs().len(),
        ensures
            r.0@ == self.pairs()[i as int].0,
            r.1@ == self.pairs()[i as int].1,
    {
        let e = &self.entries[i];
        (&e.0, &e.1)
    }

    /// The index of the entry for `key`, if there is one.
    pub fn position(&self, key: &str) -> (r: Option<usize>)
        ensures
            r matches Some(i) ==> i < self.pairs().len() && self.pairs()[i as int].0 == key@,
            r is None ==> forall|i: int| 0 <= i < self.pairs().len() ==> self.pairs()[i].0 != key@,
    {
        let n = self.entries.len();
        let mut i: usize = 0;
        while i < n
            invariant
                i <= n == self.entries@.len(),
                forall|j: int| 0 <= j < i ==> self.pairs()[j].0 != key@,
            decreases n - i,
        {
            if crate::text::str_eq(self.entries[i].0.as_str(), key) {
                return Some(i);
            }
            i = i + 1;
        }
        None
    }

    /// The value stored under `key`.
    pub fn get(&self, key: &str) -> (r: Option<&V>)
        ensures
            r matches Some(v) ==> lookup(self.pairs(), key@) == Some(v@),
            r is None ==> lookup(self.pairs(), key@) is None,
    {
        proof {
            use_type_invariant(self);
        }
        match self.position(key) {
            Some(i) => {
                proof {
                    lemma_lookup_found(self.pairs(), i as int);
                }
                Some(&self.entries[i].1)
            },
            None => {
                proof {
                    lemma_lookup_absent(self.pairs(), key@);
                }
                None
            },
        }
    }

    /// Stores `value` under `key`: an existing entry keeps its place, a new
    /// key goes to the end.
    pub fn insert(&mut self, key: String, value: V)
        ensures
            pairs_map(final(self).pairs()) == pairs_map(old(self).pairs()).insert(key@, value@),
            (exists|i: int| 0 <= i < old(self).pairs().len() && old(self).pairs()[i].0 == key@) ==> (
            exists|i: int|
                0 <= i < old(self).pairs().len() && old(self).pairs()[i].0 == key@
                    && final(self).pairs() == old(self).pairs().update(i, (key@, value@))),
            (forall|i: int| 0 <= i < old(self).pairs().len() ==> old(self).pairs()[i].0 != key@)
                ==> final(self).pairs() == old(self).pairs().push((key@, value@)),
    {
        proof {
            use_type_invariant(&*self);
        }
        let ghost old_pairs = self.pairs();
        match self.position(key.as_str()) {
            Some(i) => {
                proof {
                    lemma_lookup_update(old_pairs, i as int, value@);
                }
                let mut entries: Vec<(String, V)> = Vec::new();
                std::mem::swap(&mut entries, &mut self.entries);
                entries.set(i, (key, value));
                assert(entries@.map_values(|e: (String, V)| (e.0@, e.1@)) =~= old_pairs.update(
                    i as int,
                    (key@, value@),
                ));
                self.entries = entries;
                assert(self.pairs() =~= old_pairs.update(i as int, (key@, value@)));
            },
            None => {
                proof {
                    lemma_lookup_push(old_pairs, key@, value@);
                }
                let mut entries: Vec<(String, V)> = Vec::new();
                std::mem::swap(&mut entries, &mut self.entries);
                entries.push((key, value));
                let ghost new_pairs = entries@.map_values(|e: (String, V)| (e.0@, e.1@));
                assert(new_pairs =~= old_pairs.push((key@, value@)));
                assert(distinct_keys(new_pairs)) by {
                    assert forall|a: int, b: int|
                        0 <= a < new_pairs.len() && 0 <= b < new_pairs.len() && a != b implies
                        new_pairs[a].0 != new_pairs[b].0 by {
                        if a < old_pairs.len() && b < old_pairs.len() {
                            assert(new_pairs[a] == old_pairs[a]);
                            assert(new_pairs[b] == old_pairs[b]);
                        } else if a < old_pairs.len() {
                            assert(new_pairs[a] == old_pairs[a]);
                        } else {
                            assert(new_pairs[b] == old_pairs[b]);
                        }
                    }
                }
                self.entries = entries;
                assert(self.pairs() =~= old_pairs.push((key@, value@)));
            },
        }
    }
}

} // verus!
