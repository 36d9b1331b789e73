//! A small map keyed by text, kept as a list of distinct keys in insertion
//! order (request details, recorded outcomes, canceled cookies).
use crate::text::{chars_of, seq_equal};
use vstd::prelude::*;

verus! {

/// Text equality.
pub fn str_eq(a: &str, b: &str) -> (r: bool)
    ensures
        r == (a@ == b@),
{
    let x = chars_of(a);
    let y = chars_of(b);
    seq_equal(&x, &y)
}

#[derive(Debug)]
pub struct TextMap<V> {
    entries: Vec<(String, V)>,
}

impl<V> TextMap<V> {
    #[verifier::type_invariant]
    closed spec fn keys_distinct(&self) -> bool {
        forall|i: int, j: int|
            0 <= i < j < self.entries@.len() ==> self.entries@[i].0@ != self.entries@[j].0@
    }

    closed spec fn has_key_at(&self, k: Seq<char>, i: int) -> bool {
        0 <= i < self.entries@.len() && self.entries@[i].0@ == k
    }

    pub closed spec fn view(&self) -> Map<Seq<char>, V> {
        Map::new(
            |k: Seq<char>| exists|i: int| self.has_key_at(k, i),
            |k: Seq<char>| self.entries@[choose|i: int| self.has_key_at(k, i)].1,
        )
    }

    proof fn lemma_index(&self, k: Seq<char>, i: int)
        requires
            self.keys_distinct(),
            self.has_key_at(k, i),
        ensures
            self.view().contains_key(k),
            self.view()[k] == self.entries@[i].1,
    {
        let j = choose|j: int| self.has_key_at(k, j);
        assert(self.has_key_at(k, j));
        if j != i {
            if i < j {
                assert(self.entries@[i].0@ != self.entries@[j].0@);
            } else {
                assert(self.entries@[j].0@ != self.entries@[i].0@);
            }
        }
    }

    pub fn new() -> (r: Self)
        ensures
            r.view() == Map::<Seq<char>, V>::empty(),
    {
        let r = TextMap { entries: Vec::new() };
        assert(r.view() =~= Map::<Seq<char>, V>::empty());
        r
    }

    pub fn len(&self) -> (r: usize)
        ensures
            r == self.view().len(),
    {
        proof {
            use_type_invariant(self);
            self.lemma_len();
        }
        self.entries.len()
    }

    proof fn lemma_len(&self)
        requires
            self.keys_distinct(),
        ensures
            self.view().dom().finite(),
            self.view().len() == self.entries@.len(),
    {
        let keys = self.entries@.map_values(|e: (String, V)| e.0@);
        assert forall|i: int, j: int| 0 <= i < j < keys.len() implies keys[i] != keys[j] by {
            assert(self.entries@[i].0@ != self.entries@[j].0@);
        }
        assert(keys.no_duplicates());
        keys.unique_seq_to_set();
        assert(self.view().dom() =~= keys.to_set()) by {
            assert forall|k: Seq<char>| self.view().dom().contains(k) implies keys.to_set().contains(
                k,
            ) by {
                let i = choose|i: int| self.has_key_at(k, i);
                assert(keys[i] == k);
            }
            assert forall|k: Seq<char>| keys.to_set().contains(k) implies self.view().dom().contains(
                k,
            ) by {
                let i = choose|i: int| 0 <= i < keys.len() && keys[i] == k;
                assert(self.has_key_at(k, i));
            }
        }
    }

    fn find(&self, key: &str) -> (r: Option<usize>)
        ensures
            match r {
                Some(i) => self.has_key_at(key@, i as int),
                None => !self.view().contains_key(key@),
            },
    {
        let mut i: usize = 0;
        while i < self.entries.len()
            invariant
                i <= self.entries@.len(),
                forall|j: int| 0 <= j < i ==> self.entries@[j].0@ != key@,
            decreases self.entries.len() - i,
        {
            if str_eq(self.entries[i].0.as_str(), key) {
                return Some(i);
            }
            i += 1;
        }
        None
    }

    pub fn contains_key(&self, key: &str) -> (r: bool)
        ensures
            r == self.view().contains_key(key@),
    {
        match self.find(key) {
            Some(_) => true,
            None => false,
        }
    }

    pub fn get(&self, key: &str) -> (r: Option<&V>)
        ensures
            match r {
                Some(v) => self.view().contains_key(key@) && self.view()[key@] == *v,
                None => !self.view().contains_key(key@),
            },
    {
        proof {
            use_type_invariant(self);
        }
        match self.find(key) {
            Some(i) => {
                proof {
                    self.lemma_index(key@, i as int);
                }
                Some(&self.entries[i].1)
            },
            None => None,
        }
    }

    /// Sets `key` to `value`, replacing any previous value.
    pub fn insert(&mut self, key: String, value: V)
        ensures
            final(self).view() == old(self).view().insert(key@, value),
    {
        proof {
            use_type_invariant(&*self);
        }
        match self.find(key.as_str()) {
            Some(i) => {
                let mut entries: Vec<(String, V)> = Vec::new();
                std::mem::swap(&mut entries, &mut self.entries);
                entries.set(i, (key, value));
                self.entries = entries;
                proof {
                    assert forall|k: Seq<char>|
                        #![trigger self.view().contains_key(k)]
                        self.view().contains_key(k) == old(self).view().insert(
                            key@,
                            value,
                        ).contains_key(k) by {
                        if exists|j: int| old(self).has_key_at(k, j) {
                            let j = choose|j: int| old(self).has_key_at(k, j);
                            assert(self.has_key_at(k, j));
                        }
                        if exists|j: int| self.has_key_at(k, j) {
                            let j = choose|j: int| self.has_key_at(k, j);
                            if j != i {
                                assert(old(self).has_key_at(k, j));
                            }
                        }
                    }
                    assert forall|k: Seq<char>| #[trigger]
                        self.view().contains_key(k) implies self.view()[k] == old(
                            self,
                        ).view().insert(key@, value)[k] by {
                        let j = choose|j: int| self.has_key_at(k, j);
                        self.lemma_index(k, j);
                        if k != key@ {
                            assert(j != i);
                            assert(old(self).has_key_at(k, j));
                            old(self).lemma_index(k, j);
                        }
                    }
                    assert(self.view() =~= old(self).view().insert(key@, value));
                }
            },
            None => {
                let ghost n = self.entries@.len();
                let mut entries: Vec<(String, V)> = Vec::new();
                std::mem::swap(&mut entries, &mut self.entries);
                entries.push((key, value));
                proof {
                    assert forall|a: int, b: int|
                        0 <= a < b < entries@.len() implies entries@[a].0@ != entries@[b].0@ by {
                        if b == n {
                            assert(old(self).has_key_at(entries@[a].0@, a));
                        } else {
                            assert(old(self).entries@[a].0@ != old(self).entries@[b].0@);
                        }
                    }
                }
                self.entries = entries;
                proof {
                    assert(self.has_key_at(key@, n as int));
                    assert forall|k: Seq<char>|
                        #![trigger self.view().contains_key(k)]
                        self.view().contains_key(k) == old(self).view().insert(
                            key@,
                            value,
                        ).contains_key(k) by {
                        if exists|j: int| old(self).has_key_at(k, j) {
                            let j = choose|j: int| old(self).has_key_at(k, j);
                            assert(self.has_key_at(k, j));
                        }
                        if exists|j: int| self.has_key_at(k, j) {
                            let j = choose|j: int| self.has_key_at(k, j);
                            if j != n {
                                assert(old(self).has_key_at(k, j));
                            }
                        }
                    }
                    assert forall|k: Seq<char>| #[trigger]
                        self.view().contains_key(k) implies self.view()[k] == old(
                            self,
                        ).view().insert(key@, value)[k] by {
                        let j = choose|j: int| self.has_key_at(k, j);
                        self.lemma_index(k, j);
                        if k != key@ {
                            assert(j != n);
                            assert(old(self).has_key_at(k, j));
                            old(self).lemma_index(k, j);
                        }
                    }
                    assert(self.view() =~= old(self).view().insert(key@, value));
                }
            },
        }
    }

    /// Removes `key`, returning its value.
    pub fn remove(&mut self, key: &str) -> (r: Option<V>)
        ensures
            final(self).view() == old(self).view().remove(key@),
            match r {
                Some(v) => old(self).view().contains_key(key@) && old(self).view()[key@] == v,
                None => !old(self).view().contains_key(key@),
            },
    {
        proof {
            use_type_invariant(&*self);
        }
        match self.find(key) {
            Some(i) => {
                proof {
                    self.lemma_index(key@, i as int);
                }
                let mut entries: Vec<(String, V)> = Vec::new();
                std::mem::swap(&mut entries, &mut self.entries);
                let (_k, v) = entries.remove(i);
                proof {
                    assert forall|a: int, b: int|
                        0 <= a < b < entries@.len() implies entries@[a].0@ != entries@[b].0@ by {
                        let a2 = if a < i { a } else { a + 1 };
                        let b2 = if b < i { b } else { b + 1 };
                        assert(entries@[a] == old(self).entries@[a2]);
                        assert(entries@[b] == old(self).entries@[b2]);
                        assert(old(self).entries@[a2].0@ != old(self).entries@[b2].0@);
                    }
                }
                self.entries = entries;
                proof {
                    assert forall|k: Seq<char>|
                        #![trigger self.view().contains_key(k)]
                        self.view().contains_key(k) == old(self).view().remove(key@).contains_key(
                            k,
                        ) by {
                        if exists|j: int| old(self).has_key_at(k, j) {
                            let j = choose|j: int| old(self).has_key_at(k, j);
                            if k != key@ {
                                assert(j != i);
                                if j < i {
                                    assert(self.has_key_at(k, j));
                                } else {
                                    assert(self.has_key_at(k, j - 1));
                                }
                            }
                        }
                        if exists|j: int| self.has_key_at(k, j) {
                            let j = choose|j: int| self.has_key_at(k, j);
                            if j < i {
                                assert(old(self).has_key_at(k, j));
                                assert(old(self).entries@[j].0@ != old(self).entries@[i as int].0@);
                            } else {
                                assert(old(self).has_key_at(k, j + 1));
                                assert(old(self).entries@[i as int].0@ != old(self).entries@[j + 1].0@);
                            }
                        }
                    }
                    assert forall|k: Seq<char>| #[trigger]
                        self.view().contains_key(k) implies self.view()[k] == old(self).view()[k] by {
                        let j = choose|j: int| self.has_key_at(k, j);
                        self.lemma_index(k, j);
                        if j < i {
                            assert(old(self).has_key_at(k, j));
                            old(self).lemma_index(k, j);
                        } else {
                            assert(old(self).has_key_at(k, j + 1));
                            old(self).lemma_index(k, j + 1);
                        }
                    }
                    assert(self.view() =~= old(self).view().remove(key@));
                }
                Some(v)
            },
            None => {
                assert(self.view() =~= old(self).view().remove(key@));
                None
            },
        }
    }

    /// A copy with the same keys; each value is copied with its `clone`.
    pub fn copy(&self) -> (r: Self) where V: Clone
        ensures
            r.view().dom() == self.view().dom(),
            forall|k: Seq<char>| #[trigger] r.view().contains_key(k) ==> cloned::<V>(self.view()[k], r.view()[k]),
    {
        proof {
            use_type_invariant(self);
        }
        let mut entries: Vec<(String, V)> = Vec::new();
        let mut i: usize = 0;
        while i < self.entries.len()
            invariant
                i <= self.entries@.len(),
                entries@.len() == i,
                self.keys_distinct(),
                forall|j: int| 0 <= j < i ==> #[trigger] entries@[j].0@ == self.entries@[j].0@
                    && cloned::<V>(self.entries@[j].1, entries@[j].1),
            decreases self.entries.len() - i,
        {
            let key = self.entries[i].0.clone();
            let value = self.entries[i].1.clone();
            entries.push((key, value));
            i += 1;
        }
        proof {
            assert forall|a: int, b: int|
                0 <= a < b < entries@.len() implies entries@[a].0@ != entries@[b].0@ by {
                assert(entries@[a].0@ == self.entries@[a].0@);
                assert(entries@[b].0@ == self.entries@[b].0@);
            }
        }
        let r = TextMap { entries };
        proof {
            assert forall|k: Seq<char>| r.view().contains_key(k) == self.view().contains_key(k) by {
                if exists|j: int| self.has_key_at(k, j) {
                    let j = choose|j: int| self.has_key_at(k, j);
                    assert(r.has_key_at(k, j));
                }
                if exists|j: int| r.has_key_at(k, j) {
                    let j = choose|j: int| r.has_key_at(k, j);
                    assert(self.has_key_at(k, j));
                }
            }
            assert(r.view().dom() =~= self.view().dom());
            assert forall|k: Seq<char>| #[trigger] r.view().contains_key(k) implies cloned::<V>(self.view()[k], r.view()[k]) by {
                let j = choose|j: int| r.has_key_at(k, j);
                r.lemma_index(k, j);
                assert(self.has_key_at(k, j));
                self.lemma_index(k, j);
            }
        }
        r
    }

    pub fn clear(&mut self)
        ensures
            final(self).view() == Map::<Seq<char>, V>::empty(),
    {
        self.entries = Vec::new();
        assert(self.view() =~= Map::<Seq<char>, V>::empty());
    }
}

} // verus!
