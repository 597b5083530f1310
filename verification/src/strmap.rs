//! A map from strings to strings, kept as a vector of pairs whose keys are
//! pairwise distinct.

use vstd::prelude::*;

verus! {

/// A finite map from string keys to string values.
pub struct StringMap {
    entries: Vec<(String, String)>,
}

impl StringMap {
    /// No key occurs twice.
    #[verifier::type_invariant]
    spec fn keys_distinct(self) -> bool {
        forall|i: int, j: int|
            0 <= i < self.entries@.len() && 0 <= j < self.entries@.len() && i != j
                ==> #[trigger] self.entries@[i].0@ != #[trigger] self.entries@[j].0@
    }

    /// Whether some entry has the key `k`.
    spec fn has_key(self, k: Seq<char>) -> bool {
        exists|i: int| 0 <= i < self.entries@.len() && #[trigger] self.entries@[i].0@ == k
    }

    /// The position of the entry with the key `k`.
    spec fn key_pos(self, k: Seq<char>) -> int {
        choose|i: int| 0 <= i < self.entries@.len() && #[trigger] self.entries@[i].0@ == k
    }

    /// The number of entries.
    pub closed spec fn spec_len(self) -> nat {
        self.entries@.len()
    }
}

impl View for StringMap {
    type V = Map<Seq<char>, Seq<char>>;

    closed spec fn view(&self) -> Map<Seq<char>, Seq<char>> {
        Map::new(|k: Seq<char>| self.has_key(k), |k: Seq<char>| self.entries@[self.key_pos(k)].1@)
    }
}

impl StringMap {
    /// Creates an empty map.
    pub fn new() -> (m: StringMap)
        ensures
            m@ == Map::<Seq<char>, Seq<char>>::empty(),
            m.spec_len() == 0,
    {
        let m = StringMap { entries: Vec::new() };
        assert(m@ =~= Map::<Seq<char>, Seq<char>>::empty());
        m
    }

    proof fn lemma_len(&self)
        requires
            self.keys_distinct(),
        ensures
            self@.dom().finite(),
            self@.dom().len() == self.spec_len(),
    {
        let keys = self.entries@.map_values(|e: (String, String)| e.0@);
        assert(keys.no_duplicates()) by {
            assert forall|i: int, j: int|
                0 <= i < keys.len() && 0 <= j < keys.len() && i != j implies keys[i]
                != keys[j] by {
                assert(self.entries@[i].0@ == keys[i]);
                assert(self.entries@[j].0@ == keys[j]);
            }
        }
        keys.unique_seq_to_set();
        assert(self@.dom() =~= keys.to_set()) by {
            assert forall|k: Seq<char>| self@.dom().contains(k) implies keys.to_set().contains(
                k,
            ) by {
                let i = self.key_pos(k);
                assert(keys[i] == k);
            }
            assert forall|k: Seq<char>| keys.to_set().contains(k) implies self@.dom().contains(
                k,
            ) by {
                let i = choose|i: int| 0 <= i < keys.len() && keys[i] == k;
                assert(self.entries@[i].0@ == k);
            }
        }
    }

    fn position(&self, key: &str) -> (r: Option<usize>)
        ensures
            r matches Some(i) ==> i < self.entries@.len() && self.entries@[i as int].0@ == key@,
            r is None ==> !self.has_key(key@),
    {
        let q: String = key.to_owned();
        let mut i: usize = 0;
        while i < self.entries.len()
            invariant
                i <= self.entries@.len(),
                q@ == key@,
                forall|j: int| 0 <= j < i ==> #[trigger] self.entries@[j].0@ != key@,
            decreases self.entries.len() - i,
        {
            if self.entries[i].0 == q {
                return Some(i);
            }
            i = i + 1;
        }
        None
    }

    proof fn lemma_pos(&self, k: Seq<char>, i: int)
        requires
            self.keys_distinct(),
            0 <= i < self.entries@.len(),
            self.entries@[i].0@ == k,
        ensures
            self.has_key(k),
            self.key_pos(k) == i,
            self@.contains_key(k),
            self@[k] == self.entries@[i].1@,
    {
        assert(self.has_key(k));
        let p = self.key_pos(k);
        assert(self.entries@[p].0@ == k);
    }

    /// The number of entries.
    pub fn len(&self) -> (n: usize)
        ensures
            n == self.spec_len(),
    {
        self.entries.len()
    }

    /// Whether the map has no entries.
    pub fn is_empty(&self) -> (b: bool)
        ensures
            b == (self@ == Map::<Seq<char>, Seq<char>>::empty()),
    {
        proof {
            use_type_invariant(self);
        }
        proof {
            self.lemma_len();
        }
        if self.entries.len() == 0 {
            assert(self@ =~= Map::<Seq<char>, Seq<char>>::empty());
            true
        } else {
            proof {
                self.lemma_pos(self.entries@[0].0@, 0);
            }
            assert(self@.contains_key(self.entries@[0].0@));
            false
        }
    }

    /// Whether `key` has a value.
    pub fn contains_key(&self, key: &str) -> (b: bool)
        ensures
            b == self@.contains_key(key@),
    {
        proof {
            use_type_invariant(self);
        }
        match self.position(key) {
            Some(i) => {
                proof {
                    self.lemma_pos(key@, i as int);
                }
                true
            },
            None => false,
        }
    }

    /// The value of `key`, if it has one.
    pub fn get(&self, key: &str) -> (r: Option<&String>)
        ensures
            r matches Some(v) ==> self@.contains_key(key@) && v@ == self@[key@],
            r is None ==> !self@.contains_key(key@),
    {
        proof {
            use_type_invariant(self);
        }
        match self.position(key) {
            Some(i) => {
                proof {
                    self.lemma_pos(key@, i as int);
                }
                Some(&self.entries[i].1)
            },
            None => None,
        }
    }

    /// Gives `key` the value `value`; returns the value it had before, if any.
    pub fn insert(&mut self, key: String, value: String) -> (r: Option<String>)
        ensures
            final(self)@ == old(self)@.insert(key@, value@),
            r matches Some(v) ==> old(self)@.contains_key(key@) && v@ == old(self)@[key@],
            r is None ==> !old(self)@.contains_key(key@),
    {
        proof {
            use_type_invariant(&*self);
        }
        match self.position(key.as_str()) {
            Some(i) => {
                proof {
                    self.lemma_pos(key@, i as int);
                }
                let ghost pre = *self;
                let prev = self.entries[i].1.clone();
                let ghost k = key@;
                let ghost vv = value@;
                let mut es: Vec<(String, String)> = Vec::new();
                std::mem::swap(&mut es, &mut self.entries);
                es.set(i, (key, value));
                self.entries = es;
                proof {
                    self.lemma_pos(k, i as int);
                    assert(self@ =~= pre@.insert(k, vv)) by {
                        assert forall|q: Seq<char>| #[trigger] self@.contains_key(q) == pre@.insert(
                            k,
                            vv,
                        ).contains_key(q) by {
                            if self.has_key(q) {
                                let j = self.key_pos(q);
                                if j != i {
                                    assert(pre.entries@[j].0@ == q);
                                }
                            }
                            if pre.has_key(q) {
                                let j = pre.key_pos(q);
                                if j != i {
                                    assert(self.entries@[j].0@ == q);
                                }
                            }
                        }
                        assert forall|q: Seq<char>| #[trigger] self@.contains_key(q) implies self@[q]
                            == pre@.insert(k, vv)[q] by {
                            let j = self.key_pos(q);
                            if j != i {
                                pre.lemma_pos(q, j);
                                self.lemma_pos(q, j);
                            }
                        }
                    }
                }
                Some(prev)
            },
            None => {
                let ghost pre = *self;
                let ghost k = key@;
                let ghost vv = value@;
                let mut es: Vec<(String, String)> = Vec::new();
                std::mem::swap(&mut es, &mut self.entries);
                es.push((key, value));
                assert(forall|j: int| 0 <= j < pre.entries@.len() ==> #[trigger] es@[j] == pre.entries@[j]);
                assert(es@[pre.entries@.len() as int].0@ == k);
                self.entries = es;
                proof {
                    let n = pre.entries@.len() as int;
                    self.lemma_pos(k, n);
                    assert(self@ =~= pre@.insert(k, vv)) by {
                        assert forall|q: Seq<char>| #[trigger] self@.contains_key(q) == pre@.insert(
                            k,
                            vv,
                        ).contains_key(q) by {
                            if self.has_key(q) {
                                let j = self.key_pos(q);
                                if j != n {
                                    assert(pre.entries@[j].0@ == q);
                                }
                            }
                            if pre.has_key(q) {
                                let j = pre.key_pos(q);
                                assert(self.entries@[j].0@ == q);
                            }
                        }
                        assert forall|q: Seq<char>| #[trigger] self@.contains_key(q) implies self@[q]
                            == pre@.insert(k, vv)[q] by {
                            let j = self.key_pos(q);
                            if j != n {
                                pre.lemma_pos(q, j);
                                self.lemma_pos(q, j);
                            }
                        }
                    }
                }
                None
            },
        }
    }

    /// Removes `key`; returns the value it had, if any.
    pub fn remove(&mut self, key: &str) -> (r: Option<String>)
        ensures
            final(self)@ == old(self)@.remove(key@),
            r matches Some(v) ==> old(self)@.contains_key(key@) && v@ == old(self)@[key@],
            r is None ==> !old(self)@.contains_key(key@),
    {
        proof {
            use_type_invariant(&*self);
        }
        match self.position(key) {
            Some(i) => {
                proof {
                    self.lemma_pos(key@, i as int);
                }
                let ghost pre = *self;
                let mut es: Vec<(String, String)> = Vec::new();
                std::mem::swap(&mut es, &mut self.entries);
                let e = es.remove(i);
                self.entries = es;
                proof {
                    let k = key@;
                    assert(self@ =~= pre@.remove(k)) by {
                        assert forall|q: Seq<char>| #[trigger] self@.contains_key(q) == pre@.remove(
                            k,
                        ).contains_key(q) by {
                            if self.has_key(q) {
                                let j = self.key_pos(q);
                                if j < i {
                                    assert(pre.entries@[j].0@ == q);
                                } else {
                                    assert(pre.entries@[j + 1].0@ == q);
                                }
                            }
                            if pre.has_key(q) && q != k {
                                let j = pre.key_pos(q);
                                if j < i {
                                    assert(self.entries@[j].0@ == q);
                                } else {
                                    assert(self.entries@[j - 1].0@ == q);
                                }
                            }
                        }
                        assert forall|q: Seq<char>| #[trigger] self@.contains_key(q) implies self@[q]
                            == pre@.remove(k)[q] by {
                            let j = self.key_pos(q);
                            if j < i {
                                pre.lemma_pos(q, j);
                                self.lemma_pos(q, j);
                            } else {
                                pre.lemma_pos(q, j + 1);
                                self.lemma_pos(q, j);
                            }
                        }
                    }
                }
                Some(e.1)
            },
            None => {
                assert(self@ =~= self@.remove(key@));
                None
            },
        }
    }
}

} // verus!
