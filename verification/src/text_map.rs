//! A finite map from texts to values, kept as a list of entries with
//! distinct keys.

use vstd::prelude::*;

verus! {

/// A map keyed by text. Each key occurs in at most one entry.
pub struct TextMap<T> {
    entries: Vec<(String, T)>,
}

impl<T> View for TextMap<T> {
    type V = Map<Seq<char>, T>;

    closed spec fn view(&self) -> Map<Seq<char>, T> {
        Map::new(
            |k: Seq<char>| self.index_of(k) >= 0,
            |k: Seq<char>| self.entries@[self.index_of(k)].1,
        )
    }
}

impl<T> TextMap<T> {
    /// No key occurs in two entries.
    pub closed spec fn wf(&self) -> bool {
        forall|i: int, j: int|
            0 <= i < self.entries@.len() && 0 <= j < self.entries@.len() && i != j
                ==> #[trigger] self.entries@[i].0@ != #[trigger] self.entries@[j].0@
    }

    /// The position of the entry holding `k`, or -1.
    closed spec fn index_of(&self, k: Seq<char>) -> int {
        if exists|i: int| 0 <= i < self.entries@.len() && #[trigger] self.entries@[i].0@ == k {
            choose|i: int| 0 <= i < self.entries@.len() && #[trigger] self.entries@[i].0@ == k
        } else {
            -1
        }
    }

    proof fn lemma_entry(&self, i: int)
        requires
            self.wf(),
            0 <= i < self.entries@.len(),
        ensures
            self.index_of(self.entries@[i].0@) == i,
            self@.contains_key(self.entries@[i].0@),
            self@[self.entries@[i].0@] == self.entries@[i].1,
    {
        let k = self.entries@[i].0@;
        assert(self.entries@[i].0@ == k);
        let j = self.index_of(k);
        assert(0 <= j < self.entries@.len() && self.entries@[j].0@ == k);
    }

    proof fn lemma_absent(&self, k: Seq<char>)
        requires
            forall|i: int| 0 <= i < self.entries@.len() ==> #[trigger] self.entries@[i].0@ != k,
        ensures
            !self@.contains_key(k),
    {
    }

    /// The empty map.
    pub fn new() -> (m: TextMap<T>)
        ensures
            m.wf(),
            m@ == Map::<Seq<char>, T>::empty(),
    {
        let m = TextMap { entries: Vec::new() };
        assert(m@ =~= Map::<Seq<char>, T>::empty());
        m
    }

    proof fn lemma_len(&self)
        requires
            self.wf(),
        ensures
            self@.dom().finite(),
            self@.len() == self.entries@.len(),
        decreases self.entries@.len(),
    {
        let keys = self.entries@.map_values(|e: (String, T)| e.0@);
        assert forall|i: int, j: int| 0 <= i < keys.len() && 0 <= j < keys.len() && i != j implies keys[i] != keys[j] by {
            assert(self.entries@[i].0@ != self.entries@[j].0@);
        }
        keys.unique_seq_to_set();
        assert(self@.dom() =~= keys.to_set()) by {
            assert forall|k: Seq<char>| self@.dom().contains(k) implies keys.to_set().contains(k) by {
                let i = self.index_of(k);
                assert(keys[i] == k);
            }
            assert forall|k: Seq<char>| keys.to_set().contains(k) implies self@.dom().contains(k) by {
                let i = choose|i: int| 0 <= i < keys.len() && keys[i] == k;
                self.lemma_entry(i);
            }
        }
    }

    /// The entries, one per key, in no particular order.
    pub fn entries(&self) -> (e: &Vec<(String, T)>)
        requires
            self.wf(),
        ensures
            e@.len() == self@.len(),
            forall|i: int| 0 <= i < e@.len()
                ==> #[trigger] self@.contains_key(e@[i].0@) && self@[e@[i].0@] == e@[i].1,
            forall|k: Seq<char>| #[trigger] self@.contains_key(k)
                ==> exists|i: int| 0 <= i < e@.len() && #[trigger] e@[i].0@ == k,
            forall|i: int, j: int| 0 <= i < e@.len() && 0 <= j < e@.len() && i != j
                ==> #[trigger] e@[i].0@ != #[trigger] e@[j].0@,
    {
        proof {
            self.lemma_len();
            assert forall|i: int| 0 <= i < self.entries@.len()
                implies #[trigger] self@.contains_key(self.entries@[i].0@)
                    && self@[self.entries@[i].0@] == self.entries@[i].1 by {
                self.lemma_entry(i);
            }
            assert forall|k: Seq<char>| #[trigger] self@.contains_key(k)
                implies exists|i: int| 0 <= i < self.entries@.len() && #[trigger] self.entries@[i].0@ == k by {
                let i = self.index_of(k);
                assert(self.entries@[i].0@ == k);
            }
        }
        &self.entries
    }

    /// The position of the entry holding `key`, if any.
    fn find(&self, key: &String) -> (r: Option<usize>)
        requires
            self.wf(),
        ensures
            match r {
                Some(i) => i < self.entries@.len() && self.entries@[i as int].0@ == key@,
                None => forall|i: int| 0 <= i < self.entries@.len() ==> #[trigger] self.entries@[i].0@ != key@,
            },
    {
        let mut i: usize = 0;
        while i < self.entries.len()
            invariant
                i <= self.entries@.len(),
                forall|j: int| 0 <= j < i ==> #[trigger] self.entries@[j].0@ != key@,
            decreases self.entries@.len() - i,
        {
            if self.entries[i].0 == *key {
                return Some(i);
            }
            i = i + 1;
        }
        None
    }

    /// Whether `key` has a value.
    pub fn contains_key(&self, key: &String) -> (r: bool)
        requires
            self.wf(),
        ensures
            r == self@.contains_key(key@),
    {
        match self.find(key) {
            Some(i) => {
                proof {
                    self.lemma_entry(i as int);
                }
                true
            },
            None => false,
        }
    }

    /// The value of `key`, if any.
    pub fn get(&self, key: &String) -> (r: Option<&T>)
        requires
            self.wf(),
        ensures
            r is Some <==> self@.contains_key(key@),
            r matches Some(v) ==> *v == self@[key@],
    {
        match self.find(key) {
            Some(i) => {
                proof {
                    self.lemma_entry(i as int);
                }
                Some(&self.entries[i].1)
            },
            None => None,
        }
    }

    /// Sets the value of `key`, replacing any earlier one.
    pub fn insert(&mut self, key: String, value: T)
        requires
            old(self).wf(),
        ensures
            final(self).wf(),
            final(self)@ == old(self)@.insert(key@, value),
    {
        let ghost k = key@;
        match self.find(&key) {
            Some(i) => {
                let ghost pre = *self;
                self.entries.set(i, (key, value));
                proof {
                    assert forall|a: int, b: int|
                        0 <= a < self.entries@.len() && 0 <= b < self.entries@.len() && a != b
                        implies #[trigger] self.entries@[a].0@ != #[trigger] self.entries@[b].0@ by {
                        assert(pre.entries@[a].0@ != pre.entries@[b].0@);
                    }
                    assert forall|x: Seq<char>| #[trigger] self@.contains_key(x)
                        <==> pre@.insert(k, value).contains_key(x) by {
                        if self@.contains_key(x) {
                            let j = self.index_of(x);
                            if j != i {
                                pre.lemma_entry(j);
                            }
                        }
                        if pre@.contains_key(x) {
                            let j = pre.index_of(x);
                            self.lemma_entry(j);
                        }
                        self.lemma_entry(i as int);
                    }
                    assert forall|x: Seq<char>| #[trigger] self@.contains_key(x)
                        implies self@[x] == pre@.insert(k, value)[x] by {
                        let j = self.index_of(x);
                        self.lemma_entry(j);
                        if j != i {
                            pre.lemma_entry(j);
                        }
                    }
                    assert(self@ =~= pre@.insert(k, value));
                }
            },
            None => {
                let ghost pre = *self;
                self.entries.push((key, value));
                proof {
                    let n = pre.entries@.len() as int;
                    assert forall|a: int, b: int|
                        0 <= a < self.entries@.len() && 0 <= b < self.entries@.len() && a != b
                        implies #[trigger] self.entries@[a].0@ != #[trigger] self.entries@[b].0@ by {
                        if a < n && b < n {
                            assert(pre.entries@[a].0@ != pre.entries@[b].0@);
                        } else if a < n {
                            assert(pre.entries@[a].0@ != k);
                        } else {
                            assert(pre.entries@[b].0@ != k);
                        }
                    }
                    assert forall|x: Seq<char>| #[trigger] self@.contains_key(x)
                        <==> pre@.insert(k, value).contains_key(x) by {
                        if self@.contains_key(x) {
                            let j = self.index_of(x);
                            if j != n {
                                pre.lemma_entry(j);
                            }
                        }
                        if pre@.contains_key(x) {
                            let j = pre.index_of(x);
                            self.lemma_entry(j);
                        }
                        self.lemma_entry(n);
                    }
                    assert forall|x: Seq<char>| #[trigger] self@.contains_key(x)
                        implies self@[x] == pre@.insert(k, value)[x] by {
                        let j = self.index_of(x);
                        self.lemma_entry(j);
                        if j != n {
                            pre.lemma_entry(j);
                        }
                    }
                    assert(self@ =~= pre@.insert(k, value));
                }
            },
        }
    }

    /// Removes `key`, handing back its value if it had one.
    pub fn remove(&mut self, key: &String) -> (r: Option<T>)
        requires
            old(self).wf(),
        ensures
            final(self).wf(),
            final(self)@ == old(self)@.remove(key@),
            r is Some <==> old(self)@.contains_key(key@),
            r matches Some(v) ==> v == old(self)@[key@],
    {
        let ghost k = key@;
        match self.find(key) {
            Some(i) => {
                let ghost pre = *self;
                proof {
                    pre.lemma_entry(i as int);
                }
                let (_, v) = self.entries.remove(i);
                proof {
                    assert forall|a: int, b: int|
                        0 <= a < self.entries@.len() && 0 <= b < self.entries@.len() && a != b
                        implies #[trigger] self.entries@[a].0@ != #[trigger] self.entries@[b].0@ by {
                        let a0 = if a < i { a } else { a + 1 };
                        let b0 = if b < i { b } else { b + 1 };
                        assert(pre.entries@[a0].0@ != pre.entries@[b0].0@);
                    }
                    assert forall|x: Seq<char>| #[trigger] self@.contains_key(x)
                        <==> pre@.remove(k).contains_key(x) by {
                        if self@.contains_key(x) {
                            let j = self.index_of(x);
                            let j0 = if j < i { j } else { j + 1 };
                            pre.lemma_entry(j0);
                            assert(pre.entries@[j0].0@ != pre.entries@[i as int].0@);
                        }
                        if pre@.contains_key(x) && x != k {
                            let j0 = pre.index_of(x);
                            let j = if j0 < i { j0 } else { j0 - 1 };
                            self.lemma_entry(j);
                        }
                    }
                    assert forall|x: Seq<char>| #[trigger] self@.contains_key(x)
                        implies self@[x] == pre@.remove(k)[x] by {
                        let j = self.index_of(x);
                        self.lemma_entry(j);
                        let j0 = if j < i { j } else { j + 1 };
                        pre.lemma_entry(j0);
                    }
                    assert(self@ =~= pre@.remove(k));
                }
                Some(v)
            },
            None => {
                proof {
                    self.lemma_absent(k);
                    assert(self@ =~= self@.remove(k));
                }
                None
            },
        }
    }
}

} // verus!
