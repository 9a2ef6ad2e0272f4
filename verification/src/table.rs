//! A small string-keyed table: one value per key, kept in insertion order.
//! Used for story flags and counters, save-game flags and data registries.

use vstd::prelude::*;

verus! {

/// One value per string key.
pub struct NamedTable<V> {
    entries: Vec<(String, V)>,
}

/// The keys of a list of entries.
pub open spec fn entry_keys<V>(entries: Seq<(String, V)>) -> Seq<Seq<char>> {
    entries.map_values(|e: (String, V)| e.0@)
}

/// `true` if no key occurs twice.
pub open spec fn keys_distinct(keys: Seq<Seq<char>>) -> bool {
    forall|i: int, j: int| 0 <= i < keys.len() && 0 <= j < keys.len() && i != j ==> keys[i] != keys[j]
}

/// An index of an entry holding `k` (when there is one).
pub open spec fn key_index<V>(entries: Seq<(String, V)>, k: Seq<char>) -> int {
    choose|i: int| 0 <= i < entries.len() && entries[i].0@ == k
}

/// The map that a list of entries with distinct keys denotes.
pub open spec fn entries_map<V>(entries: Seq<(String, V)>) -> Map<Seq<char>, V> {
    Map::new(
        |k: Seq<char>| exists|i: int| 0 <= i < entries.len() && entries[i].0@ == k,
        |k: Seq<char>| entries[key_index(entries, k)].1,
    )
}

/// With distinct keys, the entry holding a key gives that key's value.
proof fn lemma_entry_value<V>(entries: Seq<(String, V)>, i: int)
    requires
        keys_distinct(entry_keys(entries)),
        0 <= i < entries.len(),
    ensures
        entries_map(entries).contains_key(entries[i].0@),
        entries_map(entries)[entries[i].0@] == entries[i].1,
{
    let k = entries[i].0@;
    assert(entry_keys(entries)[i] == k);
    let c = key_index(entries, k);
    assert(entry_keys(entries)[c] == k);
    assert(c == i);
}

impl<V> NamedTable<V> {
    #[verifier::type_invariant]
    spec fn wf(self) -> bool {
        keys_distinct(entry_keys(self.entries@))
    }

    /// The key-value map the table holds.
    pub closed spec fn view(&self) -> Map<Seq<char>, V> {
        entries_map(self.entries@)
    }

    /// An empty table.
    pub fn new() -> (t: Self)
        ensures
            t.view() == Map::<Seq<char>, V>::empty(),
    {
        let t = NamedTable { entries: Vec::new() };
        assert(t.view() =~= Map::<Seq<char>, V>::empty());
        t
    }

    /// Index of the entry holding `key`.
    fn find(&self, key: &String) -> (r: Option<usize>)
        ensures
            match r {
                Some(i) => i < self.entries@.len() && self.entries@[i as int].0@ == key@,
                None => !self.view().contains_key(key@),
            },
    {
        let mut i: usize = 0;
        while i < self.entries.len()
            invariant
                i <= self.entries@.len(),
                forall|j: int| 0 <= j < i ==> self.entries@[j].0@ != key@,
            decreases self.entries@.len() - i,
        {
            if self.entries[i].0 == *key {
                return Some(i);
            }
            i = i + 1;
        }
        None
    }

    /// The value stored under `key`, if any.
    pub fn get(&self, key: &str) -> (r: Option<&V>)
        ensures
            r == (if self.view().contains_key(key@) { Some(&self.view()[key@]) } else { None }),
    {
        proof { use_type_invariant(self); }
        let k = key.to_owned();
        match self.find(&k) {
            Some(i) => {
                proof { lemma_entry_value(self.entries@, i as int); }
                Some(&self.entries[i].1)
            },
            None => None,
        }
    }

    /// `true` if `key` has a value.
    pub fn contains(&self, key: &str) -> (b: bool)
        ensures
            b == self.view().contains_key(key@),
    {
        let k = key.to_owned();
        self.find(&k).is_some()
    }

    /// Store `value` under `key`, replacing any previous value.
    pub fn insert(&mut self, key: String, value: V)
        ensures
            final(self).view() == old(self).view().insert(key@, value),
    {
        proof { use_type_invariant(&*self); }
        let ghost old_entries = self.entries@;
        let ghost k = key@;
        let found = self.find(&key);
        let mut entries: Vec<(String, V)> = Vec::new();
        std::mem::swap(&mut entries, &mut self.entries);
        match found {
            Some(i) => {
                entries.set(i, (key, value));
                proof {
                    let ne = entries@;
                    assert(entry_keys(ne) =~= entry_keys(old_entries));
                    let m1 = entries_map(ne);
                    let m2 = entries_map(old_entries).insert(k, value);
                    assert forall|q: Seq<char>| #[trigger] m1.contains_key(q) == m2.contains_key(q) by {
                        if m2.contains_key(q) && q != k {
                            let w = choose|w: int| 0 <= w < old_entries.len() && old_entries[w].0@ == q;
                            assert(ne[w].0@ == q);
                        }
                        if m1.contains_key(q) && q != k {
                            let w = choose|w: int| 0 <= w < ne.len() && ne[w].0@ == q;
                            assert(old_entries[w].0@ == q);
                        }
                        if q == k { assert(ne[i as int].0@ == q); }
                    }
                    assert forall|q: Seq<char>| m1.contains_key(q) implies #[trigger] m1[q] == m2[q] by {
                        let w = choose|w: int| 0 <= w < ne.len() && ne[w].0@ == q;
                        lemma_entry_value(ne, w);
                        if q == k {
                            lemma_entry_value(ne, i as int);
                        } else {
                            assert(w != i);
                            assert(ne[w] == old_entries[w]);
                            lemma_entry_value(old_entries, w);
                        }
                    }
                    assert(m1 =~= m2);
                }
            },
            None => {
                entries.push((key, value));
                proof {
                    let ne = entries@;
                    assert(entry_keys(ne) =~= entry_keys(old_entries).push(k));
                    let m1 = entries_map(ne);
                    let m2 = entries_map(old_entries).insert(k, value);
                    assert forall|q: Seq<char>| #[trigger] m1.contains_key(q) == m2.contains_key(q) by {
                        if m2.contains_key(q) && q != k {
                            let w = choose|w: int| 0 <= w < old_entries.len() && old_entries[w].0@ == q;
                            assert(ne[w].0@ == q);
                        }
                        if m1.contains_key(q) && q != k {
                            let w = choose|w: int| 0 <= w < ne.len() && ne[w].0@ == q;
                            assert(w < old_entries.len());
                            assert(old_entries[w].0@ == q);
                        }
                        if q == k { assert(ne[old_entries.len() as int].0@ == q); }
                    }
                    assert forall|q: Seq<char>| m1.contains_key(q) implies #[trigger] m1[q] == m2[q] by {
                        let w = choose|w: int| 0 <= w < ne.len() && ne[w].0@ == q;
                        lemma_entry_value(ne, w);
                        if q != k {
                            assert(w < old_entries.len());
                            lemma_entry_value(old_entries, w);
                        }
                    }
                    assert(m1 =~= m2);
                    assert(keys_distinct(entry_keys(ne)));
                }
            },
        }
        self.entries = entries;
    }

    /// Number of keys with a value.
    pub fn len(&self) -> (n: usize)
        ensures
            n == self.view().len(),
    {
        proof {
            use_type_invariant(self);
            lemma_map_len(self.entries@);
        }
        self.entries.len()
    }

    /// The keys with a value.
    pub fn keys(&self) -> (v: Vec<&str>)
        ensures
            v@.map_values(|k: &str| k@).to_set() == self.view().dom(),
            v@.len() == self.view().len(),
    {
        proof {
            use_type_invariant(self);
            lemma_map_len(self.entries@);
        }
        let mut v: Vec<&str> = Vec::new();
        let mut i: usize = 0;
        while i < self.entries.len()
            invariant
                i <= self.entries@.len(),
                v@.map_values(|k: &str| k@) == entry_keys(self.entries@).subrange(0, i as int),
            decreases self.entries@.len() - i,
        {
            let ghost prev = v@;
            v.push(self.entries[i].0.as_str());
            proof {
                assert(v@.map_values(|k: &str| k@) =~= prev.map_values(|k: &str| k@).push(self.entries@[i as int].0@));
                assert(v@.map_values(|k: &str| k@) =~= entry_keys(self.entries@).subrange(0, i + 1));
            }
            i = i + 1;
        }
        proof {
            let ks = entry_keys(self.entries@);
            assert(ks.subrange(0, i as int) =~= ks);
            assert forall|k: Seq<char>| #[trigger] ks.to_set().contains(k) == self.view().dom().contains(k) by {
                if ks.contains(k) {
                    let j = choose|j: int| 0 <= j < ks.len() && ks[j] == k;
                    assert(self.entries@[j].0@ == k);
                }
                if self.view().dom().contains(k) {
                    let j = choose|j: int| 0 <= j < self.entries@.len() && self.entries@[j].0@ == k;
                    assert(ks[j] == k);
                }
            }
            assert(ks.to_set() =~= self.view().dom());
        }
        v
    }
}

/// A table with distinct keys has as many keys as entries.
proof fn lemma_map_len<V>(entries: Seq<(String, V)>)
    requires
        keys_distinct(entry_keys(entries)),
    ensures
        entries_map(entries).dom().finite(),
        entries_map(entries).len() == entries.len(),
    decreases entries.len(),
{
    if entries.len() == 0 {
        assert(entries_map(entries).dom() =~= Set::<Seq<char>>::empty());
    } else {
        let rest = entries.drop_last();
        let last = entries.last();
        assert(entry_keys(rest) =~= entry_keys(entries).drop_last());
        lemma_map_len(rest);
        assert(entries_map(entries).dom() =~= entries_map(rest).dom().insert(last.0@)) by {
            assert forall|q: Seq<char>| #[trigger] entries_map(entries).dom().contains(q)
                implies entries_map(rest).dom().insert(last.0@).contains(q) by {
                let w = choose|w: int| 0 <= w < entries.len() && entries[w].0@ == q;
                if w < rest.len() { assert(rest[w].0@ == q); }
            }
            assert forall|q: Seq<char>| entries_map(rest).dom().insert(last.0@).contains(q)
                implies #[trigger] entries_map(entries).dom().contains(q) by {
                if q == last.0@ {
                    assert(entries[entries.len() - 1].0@ == q);
                } else {
                    let w = choose|w: int| 0 <= w < rest.len() && rest[w].0@ == q;
                    assert(entries[w].0@ == q);
                }
            }
        }
        assert(!entries_map(rest).dom().contains(last.0@)) by {
            if entries_map(rest).dom().contains(last.0@) {
                let w = choose|w: int| 0 <= w < rest.len() && rest[w].0@ == last.0@;
                assert(entry_keys(entries)[w] == entry_keys(entries)[entries.len() - 1]);
            }
        }
    }
}

} // verus!
