//! A small keyed table on a vector of entries, modelled as a map.
use vstd::prelude::*;

verus! {

/// A key that can be compared at run time.
pub trait TableKey: Sized + Copy {
    fn same_key(&self, other: &Self) -> (r: bool)
        ensures
            r == (*self == *other),
    ;
}

impl TableKey for u64 {
    fn same_key(&self, other: &Self) -> (r: bool) {
        *self == *other
    }
}

impl TableKey for [u8; 16] {
    fn same_key(&self, other: &Self) -> (r: bool) {
        let mut i: usize = 0;
        while i < 16
            invariant
                i <= 16,
                forall|j: int| 0 <= j < i ==> self@[j] == other@[j],
            decreases 16 - i,
        {
            if self[i] != other[i] {
                return false;
            }
            i = i + 1;
        }
        assert(*self =~= *other);
        true
    }
}

/// Entries with distinct keys; the map `model` holds what they hold.
#[verifier::reject_recursive_types(K)]
pub struct Table<K, V> {
    entries: Vec<(K, V)>,
    model: Ghost<Map<K, V>>,
}

impl<K: TableKey, V> Table<K, V> {
    /// What the table holds: each key with its value.
    pub closed spec fn view(&self) -> Map<K, V> {
        self.model@
    }

    /// The entries hold exactly what the model does, one entry per key.
    pub closed spec fn wf(&self) -> bool {
        &&& forall|i: int|
            0 <= i < self.entries@.len() ==> #[trigger] self.model@.contains_key(self.entries@[i].0)
                && self.model@[self.entries@[i].0] == self.entries@[i].1
        &&& forall|i: int, j: int|
            0 <= i < j < self.entries@.len() ==> self.entries@[i].0 != self.entries@[j].0
        &&& forall|k: K|
            self.model@.contains_key(k) ==> exists|i: int|
                0 <= i < self.entries@.len() && #[trigger] self.entries@[i].0 == k
    }

    pub fn new() -> (r: Self)
        ensures
            r.wf(),
            r@ == Map::<K, V>::empty(),
    {
        Table { entries: Vec::new(), model: Ghost(Map::empty()) }
    }

    fn find(&self, k: &K) -> (r: Option<usize>)
        requires
            self.wf(),
        ensures
            match r {
                Some(i) => i < self.entries@.len() && self.entries@[i as int].0 == *k,
                None => !self@.contains_key(*k),
            },
    {
        let mut i: usize = 0;
        while i < self.entries.len()
            invariant
                i <= self.entries@.len(),
                forall|j: int| 0 <= j < i ==> self.entries@[j].0 != *k,
            decreases self.entries@.len() - i,
        {
            if self.entries[i].0.same_key(k) {
                return Some(i);
            }
            i = i + 1;
        }
        None
    }

    /// The value under `k`, if any.
    pub fn get(&self, k: &K) -> (r: Option<&V>)
        requires
            self.wf(),
        ensures
            match r {
                Some(v) => self@.contains_key(*k) && *v == self@[*k],
                None => !self@.contains_key(*k),
            },
    {
        match self.find(k) {
            Some(i) => {
                assert(self.model@.contains_key(self.entries@[i as int].0));
                Some(&self.entries[i].1)
            },
            None => None,
        }
    }

    /// Puts `v` under `k`, replacing what was there.
    pub fn set(&mut self, k: K, v: V)
        requires
            old(self).wf(),
        ensures
            final(self).wf(),
            final(self)@ == old(self)@.insert(k, v),
    {
        let ghost new_model = self.model@.insert(k, v);
        match self.find(&k) {
            Some(i) => {
                self.entries.set(i, (k, v));
                self.model = Ghost(new_model);
                assert forall|j: int| 0 <= j < self.entries@.len() implies #[trigger] self.model@.contains_key(
                    self.entries@[j].0,
                ) && self.model@[self.entries@[j].0] == self.entries@[j].1 by {
                    if j != i {
                        assert(old(self).model@.contains_key(old(self).entries@[j].0));
                    }
                }
                assert forall|k2: K| self.model@.contains_key(k2) implies exists|j: int|
                    0 <= j < self.entries@.len() && #[trigger] self.entries@[j].0 == k2 by {
                    if k2 != k {
                        let j = choose|j: int|
                            0 <= j < old(self).entries@.len() && #[trigger] old(
                                self,
                            ).entries@[j].0 == k2;
                        assert(self.entries@[j].0 == k2);
                    } else {
                        assert(self.entries@[i as int].0 == k2);
                    }
                }
            },
            None => {
                let ghost n = self.entries@.len() as int;
                assert forall|j: int| 0 <= j < n implies self.entries@[j].0 != k by {
                    assert(old(self).model@.contains_key(old(self).entries@[j].0));
                }
                self.entries.push((k, v));
                self.model = Ghost(new_model);
                assert forall|j: int| 0 <= j < self.entries@.len() implies #[trigger] self.model@.contains_key(
                    self.entries@[j].0,
                ) && self.model@[self.entries@[j].0] == self.entries@[j].1 by {
                    if j != n {
                        assert(old(self).model@.contains_key(old(self).entries@[j].0));
                    }
                }
                assert forall|k2: K| self.model@.contains_key(k2) implies exists|j: int|
                    0 <= j < self.entries@.len() && #[trigger] self.entries@[j].0 == k2 by {
                    if k2 != k {
                        let j = choose|j: int|
                            0 <= j < old(self).entries@.len() && #[trigger] old(
                                self,
                            ).entries@[j].0 == k2;
                        assert(self.entries@[j].0 == k2);
                    } else {
                        assert(self.entries@[old(self).entries@.len() as int].0 == k2);
                    }
                }
            },
        }
    }

    /// Takes out the value under `k`, if any.
    pub fn take(&mut self, k: &K) -> (r: Option<V>)
        requires
            old(self).wf(),
        ensures
            final(self).wf(),
            final(self)@ == old(self)@.remove(*k),
            match r {
                Some(v) => old(self)@.contains_key(*k) && v == old(self)@[*k],
                None => !old(self)@.contains_key(*k),
            },
    {
        match self.find(k) {
            Some(i) => {
                assert(self.model@.contains_key(self.entries@[i as int].0));
                let ghost last = (self.entries@.len() - 1) as int;
                let e = self.entries.swap_remove(i);
                self.model = Ghost(self.model@.remove(*k));
                assert forall|j: int| 0 <= j < self.entries@.len() implies #[trigger] self.model@.contains_key(
                    self.entries@[j].0,
                ) && self.model@[self.entries@[j].0] == self.entries@[j].1 by {
                    if j == i {
                        assert(old(self).model@.contains_key(old(self).entries@[last].0));
                    } else {
                        assert(old(self).model@.contains_key(old(self).entries@[j].0));
                    }
                }
                assert forall|a: int, b: int| 0 <= a < b < self.entries@.len() implies self.entries@[a].0
                    != self.entries@[b].0 by {
                    let oa = if a == i { last } else { a };
                    let ob = if b == i { last } else { b };
                    assert(old(self).entries@[oa].0 != old(self).entries@[ob].0);
                }
                assert forall|k2: K| self.model@.contains_key(k2) implies exists|j: int|
                    0 <= j < self.entries@.len() && #[trigger] self.entries@[j].0 == k2 by {
                    let j = choose|j: int|
                        0 <= j < old(self).entries@.len() && #[trigger] old(self).entries@[j].0
                            == k2;
                    if j == last {
                        assert(self.entries@[i as int].0 == k2);
                    } else {
                        assert(self.entries@[j].0 == k2);
                    }
                }
                Some(e.1)
            },
            None => None,
        }
    }
}

} // verus!
