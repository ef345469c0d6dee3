use vstd::prelude::*;

verus! {

/// A finite map from window labels to values, kept as a list of entries in
/// which each label occurs at most once.
pub struct LabelMap<T> {
    entries: Vec<(String, T)>,
}

impl<T> View for LabelMap<T> {
    type V = Map<Seq<char>, T>;

    closed spec fn view(&self) -> Map<Seq<char>, T> {
        Map::new(
            |k: Seq<char>| exists|i: int| 0 <= i < self.entries@.len() && self.entries@[i].0@ == k,
            |k: Seq<char>|
                self.entries@[choose|i: int|
                    0 <= i < self.entries@.len() && self.entries@[i].0@ == k].1,
        )
    }
}

impl<T> LabelMap<T> {
    /// No label occurs twice.
    pub closed spec fn wf(&self) -> bool {
        forall|i: int, j: int|
            0 <= i < self.entries@.len() && 0 <= j < self.entries@.len() && i != j
                ==> self.entries@[i].0@ != self.entries@[j].0@
    }

    proof fn lemma_entry(&self, i: int)
        requires
            self.wf(),
            0 <= i < self.entries@.len(),
        ensures
            self@.contains_key(self.entries@[i].0@),
            self@[self.entries@[i].0@] == self.entries@[i].1,
    {
        let k = self.entries@[i].0@;
        assert(0 <= i < self.entries@.len() && self.entries@[i].0@ == k);
        let j = choose|j: int| 0 <= j < self.entries@.len() && self.entries@[j].0@ == k;
        assert(j == i);
    }

    proof fn lemma_absent(&self, k: Seq<char>)
        requires
            forall|i: int| 0 <= i < self.entries@.len() ==> self.entries@[i].0@ != k,
        ensures
            !self@.contains_key(k),
    {
    }

    /// An empty map.
    pub fn new() -> (r: Self)
        ensures
            r.wf(),
            r@ == Map::<Seq<char>, T>::empty(),
    {
        let r = LabelMap { entries: Vec::new() };
        assert(r@ =~= Map::<Seq<char>, T>::empty());
        r
    }

    fn find(&self, k: &String) -> (r: Option<usize>)
        requires
            self.wf(),
        ensures
            match r {
                Some(i) => i < self.entries@.len() && self.entries@[i as int].0@ == k@,
                None => !self@.contains_key(k@),
            },
    {
        let mut i: usize = 0;
        while i < self.entries.len()
            invariant
                i <= self.entries@.len(),
                forall|j: int| 0 <= j < i ==> self.entries@[j].0@ != k@,
            decreases self.entries@.len() - i,
        {
            if self.entries[i].0 == *k {
                return Some(i);
            }
            i = i + 1;
        }
        proof {
            self.lemma_absent(k@);
        }
        None
    }

    /// Whether `k` has an entry.
    pub fn contains(&self, k: &String) -> (r: bool)
        requires
            self.wf(),
        ensures
            r == self@.contains_key(k@),
    {
        match self.find(k) {
            Some(i) => {
                proof {
                    self.lemma_entry(i as int);
                }
                true
            },
            None => false,
        }
    }

    /// How many labels have an entry.
    pub fn len(&self) -> (r: usize)
        requires
            self.wf(),
        ensures
            r == self@.dom().len(),
    {
        proof {
            let keys = self.entries@.map(|i: int, e: (String, T)| e.0@);
            assert(keys.no_duplicates());
            assert forall|k: Seq<char>| self@.dom().contains(k) == keys.to_set().contains(k) by {
                if self@.dom().contains(k) {
                    let i = choose|i: int| 0 <= i < self.entries@.len() && self.entries@[i].0@ == k;
                    assert(keys[i] == k);
                }
                if keys.to_set().contains(k) {
                    let i = choose|i: int| 0 <= i < keys.len() && keys[i] == k;
                    assert(self.entries@[i].0@ == k);
                }
            }
            assert(self@.dom() =~= keys.to_set());
            keys.unique_seq_to_set();
        }
        self.entries.len()
    }

    /// The value stored under `k`, if any.
    pub fn get(&self, k: &String) -> (r: Option<&T>)
        requires
            self.wf(),
        ensures
            r == (if self@.contains_key(k@) {
                Some(&self@[k@])
            } else {
                None
            }),
    {
        match self.find(k) {
            Some(i) => {
                proof {
                    self.lemma_entry(i as int);
                }
                Some(&self.entries[i].1)
            },
            None => None,
        }
    }

    /// Stores `v` under `k`, replacing any earlier value.
    pub fn insert(&mut self, k: String, v: T)
        requires
            old(self).wf(),
        ensures
            final(self).wf(),
            final(self)@ == old(self)@.insert(k@, v),
    {
        let ghost old_map = self@;
        let ghost key = k@;
        match self.find(&k) {
            Some(i) => {
                let ghost pre = *self;
                self.entries.set(i, (k, v));
                assert forall|a: Seq<char>| #[trigger] self@.contains_key(a) == old_map.insert(
                    key,
                    v,
                ).contains_key(a) && (self@.contains_key(a) ==> self@[a] == old_map.insert(
                    key,
                    v,
                )[a]) by {
                    if self@.contains_key(a) {
                        let j = choose|j: int|
                            0 <= j < self.entries@.len() && self.entries@[j].0@ == a;
                        self.lemma_entry(j);
                        if j != i {
                            pre.lemma_entry(j);
                        }
                    }
                    if old_map.contains_key(a) && a != key {
                        let j = choose|j: int|
                            0 <= j < pre.entries@.len() && pre.entries@[j].0@ == a;
                        assert(j != i);
                        self.lemma_entry(j);
                    }
                    if a == key {
                        self.lemma_entry(i as int);
                    }
                }
                assert(self@ =~= old_map.insert(key, v));
            },
            None => {
                let ghost pre = *self;
                self.entries.push((k, v));
                let ghost n = pre.entries@.len() as int;
                assert forall|a: Seq<char>| #[trigger] self@.contains_key(a) == old_map.insert(
                    key,
                    v,
                ).contains_key(a) && (self@.contains_key(a) ==> self@[a] == old_map.insert(
                    key,
                    v,
                )[a]) by {
                    if self@.contains_key(a) {
                        let j = choose|j: int|
                            0 <= j < self.entries@.len() && self.entries@[j].0@ == a;
                        self.lemma_entry(j);
                        if j != n {
                            pre.lemma_entry(j);
                        }
                    }
                    if old_map.contains_key(a) {
                        let j = choose|j: int|
                            0 <= j < pre.entries@.len() && pre.entries@[j].0@ == a;
                        self.lemma_entry(j);
                    }
                    if a == key {
                        self.lemma_entry(n);
                    }
                }
                assert(self@ =~= old_map.insert(key, v));
            },
        }
    }

    /// Removes the entry of `k` and hands its value back, if there was one.
    pub fn remove(&mut self, k: &String) -> (r: Option<T>)
        requires
            old(self).wf(),
        ensures
            final(self).wf(),
            final(self)@ == old(self)@.remove(k@),
            r == (if old(self)@.contains_key(k@) {
                Some(old(self)@[k@])
            } else {
                None
            }),
    {
        let ghost old_map = self@;
        match self.find(k) {
            Some(i) => {
                let ghost pre = *self;
                proof {
                    pre.lemma_entry(i as int);
                }
                let e = self.entries.remove(i);
                assert forall|a: Seq<char>| #[trigger] self@.contains_key(a) == old_map.remove(
                    k@,
                ).contains_key(a) && (self@.contains_key(a) ==> self@[a] == old_map.remove(
                    k@,
                )[a]) by {
                    if self@.contains_key(a) {
                        let j = choose|j: int|
                            0 <= j < self.entries@.len() && self.entries@[j].0@ == a;
                        self.lemma_entry(j);
                        if j < i {
                            pre.lemma_entry(j);
                        } else {
                            pre.lemma_entry(j + 1);
                        }
                    }
                    if old_map.contains_key(a) && a != k@ {
                        let j = choose|j: int|
                            0 <= j < pre.entries@.len() && pre.entries@[j].0@ == a;
                        assert(j != i);
                        if j < i {
                            self.lemma_entry(j);
                        } else {
                            self.lemma_entry(j - 1);
                        }
                    }
                }
                assert(self@ =~= old_map.remove(k@));
                Some(e.1)
            },
            None => {
                assert(self@ =~= old_map.remove(k@));
                None
            },
        }
    }
}

} // verus!
