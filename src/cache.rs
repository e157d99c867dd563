//! A cache keyed by name, shared by the typeface and image caches.
use vstd::prelude::*;
use vstd::string::StringExecFns;

verus! {

/// What a list of entries maps each name to; a later entry for a name
/// overrides an earlier one.
pub open spec fn map_of<V>(e: Seq<(String, V)>) -> Map<Seq<char>, V>
    decreases e.len(),
{
    if e.len() == 0 {
        Map::empty()
    } else {
        map_of(e.drop_last()).insert(e.last().0@, e.last().1)
    }
}

/// No two entries share a name.
pub open spec fn keys_unique<V>(e: Seq<(String, V)>) -> bool {
    forall|i: int, j: int| 0 <= i < j < e.len() ==> (#[trigger] e[i]).0@ != (#[trigger] e[j]).0@
}

proof fn lemma_map_of_domain<V>(e: Seq<(String, V)>, k: Seq<char>)
    ensures
        map_of(e).contains_key(k) <==> exists|i: int| 0 <= i < e.len() && (#[trigger] e[i]).0@ == k,
    decreases e.len(),
{
    if e.len() > 0 {
        let d = e.drop_last();
        lemma_map_of_domain(d, k);
        if map_of(e).contains_key(k) && e.last().0@ != k {
            let i = choose|i: int| 0 <= i < d.len() && (#[trigger] d[i]).0@ == k;
            assert(e[i] == d[i]);
        }
        if exists|i: int| 0 <= i < e.len() && (#[trigger] e[i]).0@ == k {
            let i = choose|i: int| 0 <= i < e.len() && (#[trigger] e[i]).0@ == k;
            if i < e.len() - 1 {
                assert(d[i] == e[i]);
            }
        }
    }
}

proof fn lemma_map_of_index<V>(e: Seq<(String, V)>, i: int)
    requires
        keys_unique(e),
        0 <= i < e.len(),
    ensures
        map_of(e).contains_key(e[i].0@),
        map_of(e)[e[i].0@] == e[i].1,
    decreases e.len(),
{
    let d = e.drop_last();
    if i < e.len() - 1 {
        assert(d[i] == e[i]);
        assert(keys_unique(d)) by {
            assert forall|a: int, b: int| 0 <= a < b < d.len() implies (#[trigger] d[a]).0@
                != (#[trigger] d[b]).0@ by {
                assert(d[a] == e[a] && d[b] == e[b]);
            }
        }
        lemma_map_of_index(d, i);
        assert(e[i].0@ != e.last().0@);
    }
}

proof fn lemma_map_of_update<V>(e: Seq<(String, V)>, i: int, entry: (String, V))
    requires
        keys_unique(e),
        0 <= i < e.len(),
        entry.0@ == e[i].0@,
    ensures
        map_of(e.update(i, entry)) == map_of(e).insert(entry.0@, entry.1),
        keys_unique(e.update(i, entry)),
    decreases e.len(),
{
    let u = e.update(i, entry);
    let d = e.drop_last();
    assert(keys_unique(u)) by {
        assert forall|a: int, b: int| 0 <= a < b < u.len() implies (#[trigger] u[a]).0@
            != (#[trigger] u[b]).0@ by {
            assert(u[a].0@ == e[a].0@ && u[b].0@ == e[b].0@);
        }
    }
    assert(keys_unique(d)) by {
        assert forall|a: int, b: int| 0 <= a < b < d.len() implies (#[trigger] d[a]).0@
            != (#[trigger] d[b]).0@ by {
            assert(d[a] == e[a] && d[b] == e[b]);
        }
    }
    if i == e.len() - 1 {
        assert(u.drop_last() == d);
        assert(map_of(u) =~= map_of(e).insert(entry.0@, entry.1));
    } else {
        assert(u.drop_last() == d.update(i, entry));
        assert(d[i] == e[i]);
        lemma_map_of_update(d, i, entry);
        assert(e[i].0@ != e.last().0@);
        assert(map_of(u) =~= map_of(e).insert(entry.0@, entry.1));
    }
}

/// A map from names to values, filled lazily and emptied only by `clear`.
pub struct NameCache<V> {
    entries: Vec<(String, V)>,
}

impl<V> View for NameCache<V> {
    type V = Map<Seq<char>, V>;

    closed spec fn view(&self) -> Map<Seq<char>, V> {
        map_of(self.entries@)
    }
}

impl<V> NameCache<V> {
    /// No name occurs twice among the entries.
    pub closed spec fn wf(&self) -> bool {
        keys_unique(self.entries@)
    }

    /// An empty cache.
    pub fn new() -> (c: Self)
        ensures
            c.wf(),
            c@ == Map::<Seq<char>, V>::empty(),
    {
        NameCache { entries: Vec::new() }
    }

    fn position(&self, key: &String) -> (r: Option<usize>)
        requires
            self.wf(),
        ensures
            match r {
                Some(i) => i < self.entries.len() && self.entries@[i as int].0@ == key@,
                None => !self@.contains_key(key@),
            },
    {
        let mut i: usize = 0;
        while i < self.entries.len()
            invariant
                i <= self.entries.len(),
                forall|j: int| 0 <= j < i ==> (#[trigger] self.entries@[j]).0@ != key@,
            decreases self.entries.len() - i,
        {
            if self.entries[i].0 == *key {
                return Some(i);
            }
            i = i + 1;
        }
        proof {
            lemma_map_of_domain(self.entries@, key@);
        }
        None
    }

    /// The value cached under a name, if there is one.
    pub fn get(&self, key: &str) -> (r: Option<&V>)
        requires
            self.wf(),
        ensures
            match r {
                Some(v) => self@.contains_key(key@) && *v == self@[key@],
                None => !self@.contains_key(key@),
            },
    {
        let k = String::from_str(key);
        match self.position(&k) {
            Some(i) => {
                proof {
                    lemma_map_of_index(self.entries@, i as int);
                }
                Some(&self.entries[i].1)
            },
            None => None,
        }
    }

    /// Caches a value under a name, replacing any value cached there before.
    pub fn insert(&mut self, key: &str, value: V)
        requires
            old(self).wf(),
        ensures
            final(self).wf(),
            final(self)@ == old(self)@.insert(key@, value),
    {
        let k = String::from_str(key);
        match self.position(&k) {
            Some(i) => {
                proof {
                    lemma_map_of_update(self.entries@, i as int, (k, value));
                }
                self.entries.set(i, (k, value));
            },
            None => {
                proof {
                    lemma_map_of_domain(self.entries@, k@);
                    let e = self.entries@.push((k, value));
                    assert(e.drop_last() == self.entries@);
                    assert forall|a: int, b: int| 0 <= a < b < e.len() implies (#[trigger] e[a]).0@
                        != (#[trigger] e[b]).0@ by {
                        if b < e.len() - 1 {
                            assert(e[a] == self.entries@[a] && e[b] == self.entries@[b]);
                        } else {
                            assert(e[a] == self.entries@[a]);
                        }
                    }
                }
                self.entries.push((k, value));
            },
        }
    }

    /// Empties the cache.
    pub fn clear(&mut self)
        ensures
            final(self).wf(),
            final(self)@ == Map::<Seq<char>, V>::empty(),
    {
        self.entries = Vec::new();
        proof {
            assert(self.entries@.len() == 0);
        }
    }
}

} // verus!
