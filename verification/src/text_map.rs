//! A map from text to values, kept as a list of entries with distinct keys.
use crate::text::same;
use vstd::prelude::*;

verus! {

/// A map whose keys are strings.
pub struct TextMap<V> {
    entries: Vec<(String, V)>,
}

/// The keys of a list of entries.
pub open spec fn entry_keys<V>(entries: Seq<(String, V)>) -> Seq<Seq<char>> {
    entries.map_values(|e: (String, V)| e.0@)
}

impl<V: View> View for TextMap<V> {
    type V = Map<Seq<char>, <V as View>::V>;

    closed spec fn view(&self) -> Map<Seq<char>, <V as View>::V> {
        Map::new(
            |k: Seq<char>| self.keys().contains(k),
            |k: Seq<char>| self.entries@[self.keys().index_of(k)].1@,
        )
    }
}

impl<V> TextMap<V> {
    /// The keys, in the order in which they are held.
    pub closed spec fn keys(&self) -> Seq<Seq<char>> {
        entry_keys(self.entries@)
    }

    #[verifier::type_invariant]
    spec fn distinct(self) -> bool {
        self.keys().no_duplicates()
    }
}

impl<V: View> TextMap<V> {
    /// The empty map.
    pub fn new() -> (m: Self)
        ensures
            m@ == Map::<Seq<char>, <V as View>::V>::empty(),
    {
        let m = TextMap { entries: Vec::new() };
        assert(m@ =~= Map::<Seq<char>, <V as View>::V>::empty());
        m
    }

    /// The position of `key` among the entries.
    fn position(&self, key: &str) -> (r: Option<usize>)
        ensures
            match r {
                Some(i) => i < self.entries@.len() && self.keys()[i as int] == key@,
                None => !self.keys().contains(key@),
            },
    {
        let mut i: usize = 0;
        while i < self.entries.len()
            invariant
                i <= self.entries@.len(),
                forall|j: int| 0 <= j < i ==> self.keys()[j] != key@,
            decreases self.entries@.len() - i,
        {
            if same(self.entries[i].0.as_str(), key) {
                return Some(i);
            }
            i += 1;
        }
        None
    }

    /// The value of `key`.
    pub fn get(&self, key: &str) -> (r: Option<&V>)
        ensures
            match r {
                Some(v) => self@.contains_key(key@) && v@ == self@[key@],
                None => !self@.contains_key(key@),
            },
    {
        proof {
            use_type_invariant(self);
        }
        match self.position(key) {
            Some(i) => {
                assert(self.keys().contains(key@));
                Some(&self.entries[i].1)
            },
            None => None,
        }
    }

    /// Whether the map has a value for `key`.
    pub fn contains_key(&self, key: &str) -> (r: bool)
        ensures
            r == self@.contains_key(key@),
    {
        self.get(key).is_some()
    }
}

impl<V: View> TextMap<V> {
    /// Gives `key` the value `value`, in place of any that it had.
    pub fn insert(&mut self, key: String, value: V)
        ensures
            final(self)@ == old(self)@.insert(key@, value@),
    {
        proof {
            use_type_invariant(&*self);
        }
        let mut entries: Vec<(String, V)> = Vec::new();
        let found = self.position(key.as_str());
        std::mem::swap(&mut entries, &mut self.entries);
        let ghost before = entries@;
        let ghost keys = entry_keys(before);
        match found {
            Some(i) => {
                entries.set(i, (key, value));
                assert(entry_keys(entries@) =~= keys);
            },
            None => {
                entries.push((key, value));
                assert(entry_keys(entries@) =~= keys.push(key@));
                assert(keys.push(key@).no_duplicates());
            },
        }
        self.entries = entries;
        assert(self@ =~= old(self)@.insert(key@, value@)) by {
            assert forall|k: Seq<char>| self.keys().contains(k) <==> (k == key@ || keys.contains(k)) by {
                assert(self.keys()[if found is Some { found->0 as int } else { keys.len() as int }] == key@);
                if keys.contains(k) {
                    assert(self.keys()[keys.index_of(k)] == k);
                }
            }
            assert forall|k: Seq<char>| self.keys().contains(k) implies
                self.entries@[self.keys().index_of(k)].1@ == old(self)@.insert(key@, value@)[k] by {
                if k != key@ {
                    assert(keys.contains(k));
                    assert(self.keys()[keys.index_of(k)] == k);
                }
            }
        }
    }

    /// Takes the value of `key` out of the map, if it has one.
    pub fn remove(&mut self, key: &str)
        ensures
            final(self)@ == old(self)@.remove(key@),
    {
        proof {
            use_type_invariant(&*self);
        }
        let mut entries: Vec<(String, V)> = Vec::new();
        let found = self.position(key);
        std::mem::swap(&mut entries, &mut self.entries);
        let ghost keys = entry_keys(entries@);
        if let Some(i) = found {
            entries.remove(i);
            assert(entry_keys(entries@) =~= keys.remove(i as int));
        }
        self.entries = entries;
        assert(self@ =~= old(self)@.remove(key@)) by {
            assert forall|k: Seq<char>| k != key@ && keys.contains(k) implies
                self.keys().contains(k) && self.entries@[self.keys().index_of(k)] == old(self).entries@[keys.index_of(k)] by {
                let j = keys.index_of(k);
                if found is Some && j > found->0 {
                    assert(self.keys()[j - 1] == k);
                } else {
                    assert(self.keys()[j] == k);
                }
            }
            assert forall|k: Seq<char>| self.keys().contains(k) implies k != key@ && keys.contains(k) by {
                let j = self.keys().index_of(k);
                if found is Some && j >= found->0 {
                    assert(keys[j + 1] == k);
                } else {
                    assert(keys[j] == k);
                }
            }
        }
    }

    /// The number of entries.
    pub fn len(&self) -> (n: usize)
        ensures
            n == self.keys().len(),
            self.keys().no_duplicates(),
            self.keys().to_set() == self@.dom(),
    {
        proof {
            use_type_invariant(self);
            assert(self.keys().to_set() =~= self@.dom());
        }
        self.entries.len()
    }

    /// The entry at position `i`.
    pub fn entry(&self, i: usize) -> (r: (&String, &V))
        requires
            i < self.keys().len(),
        ensures
            r.0@ == self.keys()[i as int],
            self@.contains_key(r.0@),
            r.1@ == self@[r.0@],
    {
        proof {
            use_type_invariant(self);
            assert(self.keys().contains(self.keys()[i as int]));
        }
        let e = &self.entries[i];
        (&e.0, &e.1)
    }
}

} // verus!
