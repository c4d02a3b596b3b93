//! A small string-keyed table, viewed as a `Map` from keys to values.

use vstd::prelude::*;

verus! {

/// The value stored under `k` in the list of entries, the first match winning.
pub open spec fn lookup<V>(entries: Seq<(String, V)>, k: Seq<char>) -> Option<V>
    decreases entries.len(),
{
    if entries.len() == 0 {
        None
    } else if entries[0].0@ == k {
        Some(entries[0].1)
    } else {
        lookup(entries.drop_first(), k)
    }
}

/// A table from strings to values, kept as a list of entries.
#[derive(Debug)]
pub struct KeyTable<V> {
    pub entries: Vec<(String, V)>,
}

impl<V> View for KeyTable<V> {
    type V = Map<Seq<char>, V>;

    open spec fn view(&self) -> Map<Seq<char>, V> {
        Map::new(|k: Seq<char>| lookup(self.entries@, k) is Some, |k: Seq<char>| lookup(self.entries@, k)->0)
    }
}

proof fn lemma_lookup_prefix<V>(e: Seq<(String, V)>, i: int, k: Seq<char>)
    requires
        0 <= i <= e.len(),
        forall|j: int| 0 <= j < i ==> e[j].0@ != k,
    ensures
        lookup(e, k) == lookup(e.skip(i), k),
    decreases i,
{
    if i > 0 {
        assert(e.skip(1) =~= e.drop_first());
        lemma_lookup_prefix(e.drop_first(), i - 1, k);
        assert(e.drop_first().skip(i - 1) =~= e.skip(i));
    } else {
        assert(e.skip(0) =~= e);
    }
}

proof fn lemma_lookup_update<V>(e: Seq<(String, V)>, i: int, key: String, v: V, k: Seq<char>)
    requires
        0 <= i < e.len(),
        e[i].0@ == key@,
        forall|j: int| 0 <= j < i ==> e[j].0@ != key@,
    ensures
        lookup(e.update(i, (key, v)), k) == if k == key@ {
            Some(v)
        } else {
            lookup(e, k)
        },
    decreases i,
{
    if i > 0 {
        if e[0].0@ != k {
            assert(e.update(i, (key, v)).drop_first() =~= e.drop_first().update(i - 1, (key, v)));
            lemma_lookup_update(e.drop_first(), i - 1, key, v, k);
        }
    } else {
        assert(e.update(i, (key, v)).drop_first() =~= e.drop_first());
    }
}

proof fn lemma_lookup_push<V>(e: Seq<(String, V)>, key: String, v: V, k: Seq<char>)
    requires
        forall|j: int| 0 <= j < e.len() ==> e[j].0@ != key@,
    ensures
        lookup(e.push((key, v)), k) == if k == key@ && lookup(e, k) is None {
            Some(v)
        } else {
            lookup(e, k)
        },
    decreases e.len(),
{
    if e.len() == 0 {
        assert(e.push((key, v)).drop_first() =~= Seq::<(String, V)>::empty());
    } else {
        assert(e.push((key, v)).drop_first() =~= e.drop_first().push((key, v)));
        lemma_lookup_push(e.drop_first(), key, v, k);
    }
}

proof fn lemma_lookup_none<V>(e: Seq<(String, V)>, k: Seq<char>)
    requires
        forall|j: int| 0 <= j < e.len() ==> e[j].0@ != k,
    ensures
        lookup(e, k) is None,
    decreases e.len(),
{
    if e.len() > 0 {
        lemma_lookup_none(e.drop_first(), k);
    }
}

impl<V: Copy> KeyTable<V> {
    /// An empty table.
    pub fn new() -> (t: Self)
        ensures
            t@ == Map::<Seq<char>, V>::empty(),
    {
        let t = KeyTable { entries: Vec::new() };
        assert(t@ =~= Map::<Seq<char>, V>::empty());
        t
    }

    /// The value stored under `key`.
    pub fn get(&self, key: &str) -> (r: Option<V>)
        ensures
            r == (if self@.contains_key(key@) {
                Some(self@[key@])
            } else {
                None::<V>
            }),
    {
        let n = self.entries.len();
        let key_s = key.to_owned();
        for i in 0..n
            invariant
                n == self.entries@.len(),
                key_s@ == key@,
                forall|j: int| 0 <= j < i ==> self.entries@[j].0@ != key@,
        {
            if self.entries[i].0 == key_s {
                proof {
                    lemma_lookup_prefix(self.entries@, i as int, key@);
                }
                return Some(self.entries[i].1);
            }
        }
        proof {
            lemma_lookup_none(self.entries@, key@);
        }
        None
    }

    /// Position of the entry for `key`, if any.
    fn position(&self, key: &String) -> (r: Option<usize>)
        ensures
            r matches Some(i) ==> i < self.entries@.len() && self.entries@[i as int].0@ == key@
                && forall|j: int| 0 <= j < i ==> self.entries@[j].0@ != key@,
            r is None ==> forall|j: int| 0 <= j < self.entries@.len() ==> self.entries@[j].0@ != key@,
    {
        let n = self.entries.len();
        for i in 0..n
            invariant
                n == self.entries@.len(),
                forall|j: int| 0 <= j < i ==> self.entries@[j].0@ != key@,
        {
            if self.entries[i].0 == *key {
                return Some(i);
            }
        }
        None
    }

    /// Stores `v` under `key`, replacing any value stored there.
    pub fn insert(&mut self, key: &str, v: V)
        ensures
            final(self)@ == old(self)@.insert(key@, v),
    {
        let ghost e0 = self.entries@;
        let ghost m0 = self@;
        let key_s = key.to_owned();
        match self.position(&key_s) {
            Some(i) => {
                self.entries.set(i, (key_s, v));
                proof {
                    assert forall|q: Seq<char>| true implies lookup(self.entries@, q) == (if q == key@ {
                        Some(v)
                    } else {
                        lookup(e0, q)
                    }) by {
                        lemma_lookup_update(e0, i as int, key_s, v, q);
                    }
                    assert(self@ =~= m0.insert(key@, v));
                }
            },
            None => {
                self.entries.push((key_s, v));
                proof {
                    lemma_lookup_none(e0, key@);
                    assert forall|q: Seq<char>| true implies lookup(self.entries@, q) == (if q == key@ {
                        Some(v)
                    } else {
                        lookup(e0, q)
                    }) by {
                        lemma_lookup_push(e0, key_s, v, q);
                    }
                    assert(self@ =~= m0.insert(key@, v));
                }
            },
        }
    }

    /// Removes every entry.
    pub fn clear(&mut self)
        ensures
            final(self)@ == Map::<Seq<char>, V>::empty(),
    {
        self.entries = Vec::new();
        assert(self@ =~= Map::<Seq<char>, V>::empty());
    }
}

} // verus!
