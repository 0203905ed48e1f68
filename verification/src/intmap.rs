//! An ordered map with integer keys.
use vstd::prelude::*;

verus! {

/// One key with its value.
pub struct IntEntry<V> {
    pub key: u128,
    pub value: V,
}

/// A map from integers to values, kept in the order of its keys.
pub struct IntMap<V> {
    entries: Vec<IntEntry<V>>,
}

/// Each key is smaller than all that follow it.
pub open spec fn increasing(keys: Seq<u128>) -> bool {
    forall|i: int, j: int| 0 <= i < j < keys.len() ==> #[trigger] keys[i] < #[trigger] keys[j]
}

impl<V> IntMap<V> {
    /// Where a key stands.
    spec fn slot(&self, k: u128) -> int {
        choose|i: int| 0 <= i < self.entries@.len() && (#[trigger] self.entries@[i]).key == k
    }

    /// The keys in order.
    pub closed spec fn keys(&self) -> Seq<u128> {
        self.entries@.map_values(|e: IntEntry<V>| e.key)
    }

    /// The values in the order of their keys.
    pub closed spec fn values(&self) -> Seq<V> {
        self.entries@.map_values(|e: IntEntry<V>| e.value)
    }

    /// The keys are in order, each once.
    pub closed spec fn wf(&self) -> bool {
        increasing(self.keys())
    }

    /// What the keys in order have to do with the map.
    pub proof fn keys_list_domain(&self)
        requires
            self.wf(),
        ensures
            increasing(self.keys()),
            self.keys().len() == self.values().len(),
            forall|k: u128| self@.contains_key(k) <==> #[trigger] self.keys().contains(k),
            forall|i: int|
                0 <= i < self.keys().len() ==> self@.contains_key(#[trigger] self.keys()[i])
                    && self@[self.keys()[i]] == self.values()[i],
            self@.dom().finite(),
            self@.dom().len() == self.keys().len(),
    {
        assert forall|k: u128| self@.contains_key(k) <==> #[trigger] self.keys().contains(k) by {
            if self.keys().contains(k) {
                let i = choose|i: int| 0 <= i < self.keys().len() && self.keys()[i] == k;
                assert(self.entries@[i].key == k);
            }
            if self@.contains_key(k) {
                let i = self.slot(k);
                assert(self.keys()[i] == k);
            }
        }
        assert forall|i: int| 0 <= i < self.keys().len() implies self@.contains_key(
            #[trigger] self.keys()[i],
        ) && self@[self.keys()[i]] == self.values()[i] by {
            self.lemma_entry(i);
        }
        assert(self.keys().no_duplicates());
        self.keys().unique_seq_to_set();
        assert(self.keys().to_set() =~= self@.dom());
    }

    proof fn lemma_entry(&self, i: int)
        requires
            self.wf(),
            0 <= i < self.entries@.len(),
        ensures
            self@.contains_key(self.entries@[i].key),
            self@[self.entries@[i].key] == self.entries@[i].value,
    {
        let k = self.entries@[i].key;
        let j = self.slot(k);
        assert(self.entries@[j].key == k);
        assert(self.keys()[i] == k && self.keys()[j] == k);
    }

    /// An empty map.
    pub fn new() -> (r: Self)
        ensures
            r.wf(),
            r@ == Map::<u128, V>::empty(),
            r.keys() == Seq::<u128>::empty(),
    {
        let r = IntMap { entries: Vec::new() };
        assert(r@ =~= Map::<u128, V>::empty());
        assert(r.keys() =~= Seq::empty());
        r
    }

    /// How many keys there are.
    pub fn len(&self) -> (n: usize)
        requires
            self.wf(),
        ensures
            n == self.keys().len(),
            n == self@.dom().len(),
    {
        proof {
            self.keys_list_domain();
        }
        self.entries.len()
    }

    /// The key at a place in the order.
    pub fn key_at(&self, i: usize) -> (k: u128)
        requires
            i < self.keys().len(),
        ensures
            k == self.keys()[i as int],
    {
        self.entries[i].key
    }

    /// The value at a place in the order.
    pub fn value_at(&self, i: usize) -> (v: &V)
        requires
            self.wf(),
            i < self.keys().len(),
        ensures
            *v == self.values()[i as int],
            self@.contains_key(self.keys()[i as int]),
            *v == self@[self.keys()[i as int]],
    {
        proof {
            self.lemma_entry(i as int);
        }
        &self.entries[i].value
    }

    /// The place of the first key that is not below `key`.
    pub fn lower_bound(&self, key: u128) -> (i: usize)
        requires
            self.wf(),
        ensures
            i <= self.keys().len(),
            forall|j: int| 0 <= j < i ==> #[trigger] self.keys()[j] < key,
            forall|j: int| i <= j < self.keys().len() ==> #[trigger] self.keys()[j] >= key,
    {
        let mut i: usize = 0;
        while i < self.entries.len() && self.entries[i].key < key
            invariant
                self.wf(),
                0 <= i <= self.entries@.len(),
                forall|j: int| 0 <= j < i ==> #[trigger] self.keys()[j] < key,
            decreases self.entries@.len() - i,
        {
            assert(self.keys()[i as int] < key);
            i = i + 1;
        }
        assert forall|j: int| i <= j < self.keys().len() implies #[trigger] self.keys()[j] >= key by {
            assert(self.keys()[i as int] >= key);
        }
        i
    }

    fn position(&self, key: u128) -> (r: Option<usize>)
        requires
            self.wf(),
        ensures
            match r {
                Some(i) => i < self.entries@.len() && self.entries@[i as int].key == key
                    && self@.contains_key(key) && self@[key] == self.entries@[i as int].value,
                None => !self@.contains_key(key),
            },
    {
        let i: usize = self.lower_bound(key);
        if i < self.entries.len() && self.entries[i].key == key {
            proof {
                self.lemma_entry(i as int);
            }
            Some(i)
        } else {
            proof {
                if self@.contains_key(key) {
                    let j = self.slot(key);
                    assert(self.keys()[j] == key);
                    if i < self.entries@.len() {
                        assert(self.keys()[i as int] != key);
                    }
                }
            }
            None
        }
    }

    /// The value of a key.
    pub fn get(&self, key: u128) -> (r: Option<&V>)
        requires
            self.wf(),
        ensures
            match r {
                Some(v) => self@.contains_key(key) && *v == self@[key],
                None => !self@.contains_key(key),
            },
    {
        match self.position(key) {
            Some(i) => Some(&self.entries[i].value),
            None => None,
        }
    }

    /// Whether a key has a value.
    pub fn contains_key(&self, key: u128) -> (r: bool)
        requires
            self.wf(),
        ensures
            r == self@.contains_key(key),
    {
        self.position(key).is_some()
    }

    /// Gives a key a value.
    pub fn insert(&mut self, key: u128, value: V)
        requires
            old(self).wf(),
        ensures
            final(self).wf(),
            final(self)@ == old(self)@.insert(key, value),
    {
        let ghost before = *self;
        let i: usize = self.lower_bound(key);
        if i < self.entries.len() && self.entries[i].key == key {
            let _ = self.entries.remove(i);
            self.entries.insert(i, IntEntry { key, value });
            assert(self.keys() =~= before.keys());
        } else {
            self.entries.insert(i, IntEntry { key, value });
            assert(self.keys() =~= before.keys().insert(i as int, key));
        }
        proof {
            assert(self.entries@[i as int].key == key);
            assert(before.keys().len() == before.entries@.len());
            if self.entries@.len() != before.entries@.len() && i < before.entries@.len() {
                assert(before.keys()[i as int] > key);
            }
            assert(self.wf());
            assert forall|q: u128| self@.contains_key(q) == before@.insert(key, value).contains_key(
                q,
            ) by {
                if before@.contains_key(q) {
                    let j = before.slot(q);
                    assert(before.entries@[j].key == q);
                    if self.entries@.len() == before.entries@.len() || j < i {
                        assert(self.entries@[j].key == q);
                    } else {
                        assert(self.entries@[j + 1].key == q);
                    }
                }
                if self@.contains_key(q) && q != key {
                    let j = self.slot(q);
                    assert(self.entries@[j].key == q);
                    if self.entries@.len() == before.entries@.len() || j < i {
                        assert(before.entries@[j].key == q);
                    } else {
                        assert(before.entries@[j - 1].key == q);
                    }
                }
            }
            assert forall|q: u128| self@.contains_key(q) implies self@[q] == before@.insert(
                key,
                value,
            )[q] by {
                let j = self.slot(q);
                assert(self.entries@[j].key == q);
                self.lemma_entry(j);
                if q != key {
                    if self.entries@.len() == before.entries@.len() || j < i {
                        assert(before.entries@[j] == self.entries@[j]);
                        before.lemma_entry(j);
                    } else {
                        assert(before.entries@[j - 1] == self.entries@[j]);
                        before.lemma_entry(j - 1);
                    }
                } else {
                    self.lemma_entry(i as int);
                }
            }
            assert(self@ =~= before@.insert(key, value));
        }
    }

    /// Takes a key away and gives back its value.
    pub fn remove(&mut self, key: u128) -> (r: Option<V>)
        requires
            old(self).wf(),
        ensures
            final(self).wf(),
            final(self)@ == old(self)@.remove(key),
            match r {
                Some(v) => old(self)@.contains_key(key) && v == old(self)@[key],
                None => !old(self)@.contains_key(key),
            },
    {
        let ghost before = *self;
        match self.position(key) {
            Some(i) => {
                let e = self.entries.remove(i);
                proof {
                    assert(self.keys() =~= before.keys().remove(i as int));
                    assert(self.wf());
                    assert forall|q: u128| self@.contains_key(q) == before@.remove(key).contains_key(
                        q,
                    ) by {
                        if before@.contains_key(q) && q != key {
                            let j = before.slot(q);
                            assert(before.entries@[j].key == q);
                            if j < i {
                                assert(self.entries@[j].key == q);
                            } else {
                                assert(self.entries@[j - 1].key == q);
                            }
                        }
                        if self@.contains_key(q) {
                            let j = self.slot(q);
                            assert(self.entries@[j].key == q);
                            let o = if j < i { j } else { j + 1 };
                            assert(before.entries@[o].key == q);
                            assert(before.keys()[o] == q && before.keys()[i as int] == key);
                        }
                    }
                    assert forall|q: u128| self@.contains_key(q) implies self@[q] == before@.remove(
                        key,
                    )[q] by {
                        let j = self.slot(q);
                        assert(self.entries@[j].key == q);
                        self.lemma_entry(j);
                        let o = if j < i { j } else { j + 1 };
                        assert(before.entries@[o] == self.entries@[j]);
                        before.lemma_entry(o);
                    }
                    assert(self@ =~= before@.remove(key));
                }
                Some(e.value)
            },
            None => {
                assert(self@ =~= before@.remove(key));
                None
            },
        }
    }

    /// Takes all keys from `key` on away.
    pub fn truncate_from(&mut self, key: u128)
        requires
            old(self).wf(),
        ensures
            final(self).wf(),
            final(self)@ == old(self)@.remove_keys(Set::new(|k: u128| k >= key)),
    {
        let ghost before = *self;
        let n: usize = self.lower_bound(key);
        self.entries.truncate(n);
        proof {
            assert(self.keys() =~= before.keys().take(n as int));
            assert(self.wf());
            assert forall|q: u128| self@.contains_key(q) == before@.remove_keys(
                Set::new(|k: u128| k >= key),
            ).contains_key(q) by {
                if before@.contains_key(q) {
                    let j = before.slot(q);
                    assert(before.entries@[j].key == q);
                    assert(before.keys()[j] == q);
                    if q < key {
                        assert(self.entries@[j].key == q);
                    }
                }
                if self@.contains_key(q) {
                    let j = self.slot(q);
                    assert(self.entries@[j].key == q);
                    assert(before.entries@[j].key == q);
                    assert(before.keys()[j] == q);
                }
            }
            assert forall|q: u128| self@.contains_key(q) implies self@[q] == before@[q] by {
                let j = self.slot(q);
                assert(self.entries@[j].key == q);
                self.lemma_entry(j);
                assert(before.entries@[j] == self.entries@[j]);
                before.lemma_entry(j);
            }
            assert(self@ =~= before@.remove_keys(Set::new(|k: u128| k >= key)));
        }
    }

    /// Takes all keys away.
    pub fn clear(&mut self)
        ensures
            final(self).wf(),
            final(self)@ == Map::<u128, V>::empty(),
    {
        *self = IntMap::new();
    }
}

impl<V> View for IntMap<V> {
    type V = Map<u128, V>;

    closed spec fn view(&self) -> Map<u128, V> {
        Map::new(
            |k: u128|
                exists|i: int| 0 <= i < self.entries@.len() && (#[trigger] self.entries@[i]).key == k,
            |k: u128| self.entries@[self.slot(k)].value,
        )
    }
}

} // verus!
