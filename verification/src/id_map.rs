//! A map from 128-bit identifiers (the numeric form of a UUID) to values.

use vstd::prelude::*;

verus! {

/// Values stored under 128-bit identifiers; each identifier occurs at most once.
pub struct IdMap<V> {
    entries: Vec<(u128, V)>,
}

impl<V> IdMap<V> {
    #[verifier::type_invariant]
    spec fn ids_distinct(self) -> bool {
        forall|i: int, j: int|
            0 <= i < j < self.entries@.len() ==> #[trigger] self.entries@[i].0
                != #[trigger] self.entries@[j].0
    }

    spec fn holds_id(self, k: u128) -> bool {
        exists|i: int| 0 <= i < self.entries@.len() && #[trigger] self.entries@[i].0 == k
    }

    spec fn slot_of(self, k: u128) -> int {
        choose|i: int| 0 <= i < self.entries@.len() && #[trigger] self.entries@[i].0 == k
    }

    /// The stored values, by identifier.
    pub closed spec fn as_map(self) -> Map<u128, V> {
        Map::new(|k: u128| self.holds_id(k), |k: u128| self.entries@[self.slot_of(k)].1)
    }

    proof fn lemma_slot(self, i: int)
        requires
            self.ids_distinct(),
            0 <= i < self.entries@.len(),
        ensures
            self.as_map().contains_key(self.entries@[i].0),
            self.as_map()[self.entries@[i].0] == self.entries@[i].1,
    {
        let k = self.entries@[i].0;
        assert(self.holds_id(k));
        let j = self.slot_of(k);
        assert(self.entries@[j].0 == k);
        if j < i {
            assert(self.entries@[j].0 != self.entries@[i].0);
        } else if i < j {
            assert(self.entries@[i].0 != self.entries@[j].0);
        }
    }

    fn find(&self, k: u128) -> (r: Option<usize>)
        ensures
            match r {
                Some(i) => i < self.entries@.len() && self.entries@[i as int].0 == k,
                None => !self.holds_id(k),
            },
    {
        let mut i: usize = 0;
        while i < self.entries.len()
            invariant
                i <= self.entries@.len(),
                forall|j: int| 0 <= j < i ==> #[trigger] self.entries@[j].0 != k,
            decreases self.entries@.len() - i,
        {
            if self.entries[i].0 == k {
                return Some(i);
            }
            i = i + 1;
        }
        None
    }

    /// An empty map.
    pub fn new() -> (r: Self)
        ensures
            r@ == Map::<u128, V>::empty(),
    {
        let r = IdMap { entries: Vec::new() };
        assert(r.as_map() =~= Map::<u128, V>::empty());
        r
    }

    /// Whether a value is stored under `k`.
    pub fn contains_key(&self, k: u128) -> (r: bool)
        ensures
            r == self@.contains_key(k),
    {
        match self.find(k) {
            Some(i) => {
                proof {
                    use_type_invariant(self);
                    self.lemma_slot(i as int);
                }
                true
            },
            None => false,
        }
    }

    /// The value stored under `k`, if any.
    pub fn get(&self, k: u128) -> (r: Option<&V>)
        ensures
            match r {
                Some(v) => self@.contains_key(k) && *v == self@[k],
                None => !self@.contains_key(k),
            },
    {
        match self.find(k) {
            Some(i) => {
                proof {
                    use_type_invariant(self);
                    self.lemma_slot(i as int);
                }
                Some(&self.entries[i].1)
            },
            None => None,
        }
    }

    /// Stores `v` under `k`, in place of any value stored there before.
    pub fn insert(&mut self, k: u128, v: V)
        ensures
            final(self)@ == old(self)@.insert(k, v),
    {
        proof {
            use_type_invariant(&*self);
        }
        let ghost pre = *self;
        let found = self.find(k);
        let mut entries: Vec<(u128, V)> = Vec::new();
        std::mem::swap(&mut entries, &mut self.entries);
        match found {
            Some(i) => {
                entries.set(i, (k, v));
            },
            None => {
                entries.push((k, v));
            },
        }
        let ghost n: int = match found {
            Some(i) => i as int,
            None => pre.entries@.len() as int,
        };
        proof {
            assert forall|a: int, b: int|
                0 <= a < b < entries@.len() implies #[trigger] entries@[a].0 != #[trigger] entries@[b].0 by {
                if a != n && b != n {
                    assert(pre.entries@[a].0 != pre.entries@[b].0);
                } else if found is Some {
                    assert(pre.entries@[a].0 != pre.entries@[b].0);
                } else {
                    assert(pre.entries@[a].0 == entries@[a].0);
                }
            }
        }
        self.entries = entries;
        proof {
            self.lemma_slot(n);
            assert forall|k2: u128| #[trigger]
                self.as_map().contains_key(k2) == pre.as_map().insert(k, v).contains_key(k2) by {
                if self.holds_id(k2) {
                    let j = choose|j: int| 0 <= j < self.entries@.len() && #[trigger] self.entries@[j].0 == k2;
                    if j != n {
                        assert(pre.entries@[j].0 == k2);
                    }
                }
                if pre.holds_id(k2) {
                    let j = choose|j: int| 0 <= j < pre.entries@.len() && #[trigger] pre.entries@[j].0 == k2;
                    if j != n {
                        assert(self.entries@[j].0 == k2);
                    }
                }
            }
            assert forall|k2: u128| #[trigger]
                self.as_map().contains_key(k2) implies self.as_map()[k2] == pre.as_map().insert(k, v)[k2] by {
                if k2 != k {
                    let j = choose|j: int| 0 <= j < self.entries@.len() && #[trigger] self.entries@[j].0 == k2;
                    self.lemma_slot(j);
                    pre.lemma_slot(j);
                }
            }
            assert(self.as_map() =~= pre.as_map().insert(k, v));
        }
    }
}

impl<K> IdMap<(u128, K)> {
    /// A value whose first component is `first`, with the id it is stored under,
    /// if there is one.
    pub fn find_by_first(&self, first: u128) -> (r: Option<(u128, &K)>)
        ensures
            match r {
                Some((id, k)) => self@.contains_key(id) && self@[id].0 == first && *k == self@[id].1,
                None => forall|id: u128| #[trigger] self@.contains_key(id) ==> self@[id].0 != first,
            },
    {
        proof {
            use_type_invariant(self);
        }
        let mut i: usize = 0;
        while i < self.entries.len()
            invariant
                i <= self.entries@.len(),
                self.ids_distinct(),
                forall|j: int| 0 <= j < i ==> #[trigger] self.entries@[j].1.0 != first,
            decreases self.entries@.len() - i,
        {
            if self.entries[i].1.0 == first {
                proof {
                    self.lemma_slot(i as int);
                }
                return Some((self.entries[i].0, &self.entries[i].1.1));
            }
            i = i + 1;
        }
        proof {
            assert forall|id: u128| #[trigger] self@.contains_key(id) implies self@[id].0 != first by {
                assert(self.holds_id(id));
                let j = self.slot_of(id);
                assert(self.entries@[j].1.0 != first);
            }
        }
        None
    }
}

impl<V> View for IdMap<V> {
    type V = Map<u128, V>;

    open spec fn view(&self) -> Map<u128, V> {
        self.as_map()
    }
}

} // verus!
