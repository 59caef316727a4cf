//! A collection of values that each carry their own string key (a room or a
//! peer and its id), viewed as a map from key to value.

use vstd::prelude::*;

verus! {

/// A value that names itself by a string key.
pub trait Keyed {
    spec fn key_view(&self) -> Seq<char>;

    fn key(&self) -> (k: &String)
        ensures
            k@ == self.key_view(),
    ;
}

/// Values stored by their own key; no two stored values share a key.
pub struct KeyedVec<E: Keyed> {
    entries: Vec<E>,
}

impl<E: Keyed> KeyedVec<E> {
    #[verifier::type_invariant]
    spec fn keys_distinct(self) -> bool {
        forall|i: int, j: int|
            0 <= i < j < self.entries@.len() ==> #[trigger] self.entries@[i].key_view()
                != #[trigger] self.entries@[j].key_view()
    }

    spec fn holds_key(self, k: Seq<char>) -> bool {
        exists|i: int| 0 <= i < self.entries@.len() && #[trigger] self.entries@[i].key_view() == k
    }

    spec fn slot_of(self, k: Seq<char>) -> int {
        choose|i: int| 0 <= i < self.entries@.len() && #[trigger] self.entries@[i].key_view() == k
    }

    /// The stored values, by key.
    pub closed spec fn as_map(self) -> Map<Seq<char>, E> {
        Map::new(|k: Seq<char>| self.holds_key(k), |k: Seq<char>| self.entries@[self.slot_of(k)])
    }

    /// Every stored value is stored under its own key.
    pub proof fn lemma_keys_match(self)
        ensures
            forall|k: Seq<char>| #[trigger]
                self.as_map().contains_key(k) ==> self.as_map()[k].key_view() == k,
    {
        assert forall|k: Seq<char>| #[trigger] self.as_map().contains_key(k) implies self.as_map()[k].key_view()
            == k by {
            assert(self.holds_key(k));
        }
    }

    proof fn lemma_slot(self, i: int)
        requires
            self.keys_distinct(),
            0 <= i < self.entries@.len(),
        ensures
            self.as_map().contains_key(self.entries@[i].key_view()),
            self.as_map()[self.entries@[i].key_view()] == self.entries@[i],
    {
        let k = self.entries@[i].key_view();
        assert(self.holds_key(k));
        let j = self.slot_of(k);
        assert(self.entries@[j].key_view() == k);
        if j < i {
            assert(self.entries@[j].key_view() != self.entries@[i].key_view());
        } else if i < j {
            assert(self.entries@[i].key_view() != self.entries@[j].key_view());
        }
    }

    fn find(&self, k: &String) -> (r: Option<usize>)
        ensures
            match r {
                Some(i) => i < self.entries@.len() && self.entries@[i as int].key_view() == k@,
                None => !self.holds_key(k@),
            },
    {
        let mut i: usize = 0;
        while i < self.entries.len()
            invariant
                i <= self.entries@.len(),
                forall|j: int| 0 <= j < i ==> #[trigger] self.entries@[j].key_view() != k@,
            decreases self.entries@.len() - i,
        {
            if *self.entries[i].key() == *k {
                return Some(i);
            }
            i = i + 1;
        }
        None
    }

    /// An empty collection.
    pub fn new() -> (r: Self)
        ensures
            r.as_map() == Map::<Seq<char>, E>::empty(),
    {
        let r = KeyedVec { entries: Vec::new() };
        assert(r.as_map() =~= Map::<Seq<char>, E>::empty());
        r
    }

    /// Whether a value is stored under `k`.
    pub fn contains_key(&self, k: &String) -> (r: bool)
        ensures
            r == self.as_map().contains_key(k@),
    {
        match self.find(k) {
            Some(i) => {
                proof {
                    use_type_invariant(self);
                    self.lemma_slot(i as int);
                }
                true
            },
            None => false,
        }
    }

    /// The value stored under `k`, if any.
    pub fn get(&self, k: &String) -> (r: Option<&E>)
        ensures
            match r {
                Some(e) => self.as_map().contains_key(k@) && *e == self.as_map()[k@] && e.key_view() == k@,
                None => !self.as_map().contains_key(k@),
            },
    {
        match self.find(k) {
            Some(i) => {
                proof {
                    use_type_invariant(self);
                    self.lemma_slot(i as int);
                }
                Some(&self.entries[i])
            },
            None => None,
        }
    }

    /// Stores `e` under its own key, in place of any value stored there before.
    pub fn insert(&mut self, e: E)
        ensures
            final(self).as_map() == old(self).as_map().insert(e.key_view(), e),
    {
        proof {
            use_type_invariant(&*self);
        }
        let ghost pre = *self;
        let ghost key = e.key_view();
        let found = self.find(e.key());
        let mut entries: Vec<E> = Vec::new();
        std::mem::swap(&mut entries, &mut self.entries);
        match found {
            Some(i) => {
                entries.set(i, e);
            },
            None => {
                entries.push(e);
            },
        }
        let ghost n: int = match found {
            Some(i) => i as int,
            None => pre.entries@.len() as int,
        };
        proof {
            assert forall|a: int, b: int|
                0 <= a < b < entries@.len() implies #[trigger] entries@[a].key_view()
                != #[trigger] entries@[b].key_view() by {
                if a != n && b != n {
                    assert(pre.entries@[a].key_view() != pre.entries@[b].key_view());
                } else if found is Some {
                    assert(pre.entries@[a].key_view() != pre.entries@[b].key_view());
                } else {
                    assert(pre.entries@[a].key_view() == entries@[a].key_view());
                }
            }
        }
        self.entries = entries;
        proof {
            self.lemma_slot(n);
            assert forall|k2: Seq<char>| #[trigger]
                self.as_map().contains_key(k2) == pre.as_map().insert(key, e).contains_key(k2) by {
                if self.holds_key(k2) {
                    let j = choose|j: int|
                        0 <= j < self.entries@.len() && #[trigger] self.entries@[j].key_view() == k2;
                    if j != n {
                        assert(pre.entries@[j].key_view() == k2);
                    }
                }
                if pre.holds_key(k2) {
                    let j = choose|j: int|
                        0 <= j < pre.entries@.len() && #[trigger] pre.entries@[j].key_view() == k2;
                    if j != n {
                        assert(self.entries@[j].key_view() == k2);
                    }
                }
            }
            assert forall|k2: Seq<char>| #[trigger]
                self.as_map().contains_key(k2) implies self.as_map()[k2] == pre.as_map().insert(
                key,
                e,
            )[k2] by {
                if k2 != key {
                    let j = choose|j: int|
                        0 <= j < self.entries@.len() && #[trigger] self.entries@[j].key_view() == k2;
                    self.lemma_slot(j);
                    pre.lemma_slot(j);
                }
            }
            assert(self.as_map() =~= pre.as_map().insert(key, e));
        }
    }

    /// Removes and hands back the value stored under `k`, if any.
    pub fn take(&mut self, k: &String) -> (r: Option<E>)
        ensures
            match r {
                Some(e) => old(self).as_map().contains_key(k@) && e == old(self).as_map()[k@]
                    && e.key_view() == k@
                    && final(self).as_map() == old(self).as_map().remove(k@),
                None => !old(self).as_map().contains_key(k@) && *final(self) == *old(self),
            },
    {
        proof {
            use_type_invariant(&*self);
        }
        match self.find(k) {
            Some(i) => {
                let ghost pre = *self;
                proof {
                    pre.lemma_slot(i as int);
                }
                let mut entries: Vec<E> = Vec::new();
                std::mem::swap(&mut entries, &mut self.entries);
                let e = entries.remove(i);
                proof {
                    assert forall|a: int, b: int|
                        0 <= a < b < entries@.len() implies #[trigger] entries@[a].key_view()
                        != #[trigger] entries@[b].key_view() by {
                        let a0 = if a < i { a } else { a + 1 };
                        let b0 = if b < i { b } else { b + 1 };
                        assert(pre.entries@[a0].key_view() != pre.entries@[b0].key_view());
                    }
                }
                self.entries = entries;
                proof {
                    assert forall|k2: Seq<char>| #[trigger]
                        self.as_map().contains_key(k2) == pre.as_map().remove(k@).contains_key(k2) by {
                        if self.holds_key(k2) {
                            let j = choose|j: int|
                                0 <= j < self.entries@.len() && #[trigger] self.entries@[j].key_view()
                                    == k2;
                            let j0 = if j < i { j } else { j + 1 };
                            assert(pre.entries@[j0].key_view() == k2);
                            assert(pre.entries@[j0].key_view() != pre.entries@[i as int].key_view());
                        }
                        if pre.holds_key(k2) && k2 != k@ {
                            let j = choose|j: int|
                                0 <= j < pre.entries@.len() && #[trigger] pre.entries@[j].key_view()
                                    == k2;
                            let j1 = if j < i { j } else { j - 1 };
                            assert(self.entries@[j1].key_view() == k2);
                        }
                    }
                    assert forall|k2: Seq<char>| #[trigger]
                        self.as_map().contains_key(k2) implies self.as_map()[k2] == pre.as_map().remove(
                        k@,
                    )[k2] by {
                        let j = choose|j: int|
                            0 <= j < self.entries@.len() && #[trigger] self.entries@[j].key_view()
                                == k2;
                        let j0 = if j < i { j } else { j + 1 };
                        self.lemma_slot(j);
                        pre.lemma_slot(j0);
                    }
                    assert(self.as_map() =~= pre.as_map().remove(k@));
                }
                Some(e)
            },
            None => {
                proof {
                    if self.as_map().contains_key(k@) {
                        assert(self.holds_key(k@));
                    }
                }
                None
            },
        }
    }
}

impl<E: Keyed> View for KeyedVec<E> {
    type V = Map<Seq<char>, E>;

    open spec fn view(&self) -> Map<Seq<char>, E> {
        self.as_map()
    }
}

} // verus!
