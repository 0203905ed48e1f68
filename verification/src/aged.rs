//! Caches of bounded size in which the entry that was not used for the longest
//! time gives way.
use vstd::prelude::*;

use crate::intmap::{increasing, IntMap};

verus! {

/// A cached value and when it was last used.
pub struct Aged<V> {
    pub value: V,
    pub last_used: u64,
}

/// A cache with integer keys.
pub struct AgedCache<V> {
    entries: IntMap<Aged<V>>,
    next_age: u64,
}

/// A cache as a mathematical value.
#[verifier::ext_equal]
pub struct AgedModel<V> {
    pub entries: Map<u128, Aged<V>>,
    pub next_age: u64,
}

/// The age after `age`; it never is zero.
pub open spec fn age_after(age: u64) -> u64 {
    if age == u64::MAX {
        1
    } else {
        (age + 1) as u64
    }
}

impl<V> AgedModel<V> {
    /// Whether a key was used before all others; of equal ages the smallest key.
    pub open spec fn is_oldest(self, k: u128) -> bool {
        &&& self.entries.contains_key(k)
        &&& forall|q: u128| #[trigger]
            self.entries.contains_key(q) ==> self.entries[k].last_used < self.entries[q].last_used
                || (self.entries[k].last_used == self.entries[q].last_used && k <= q)
    }

    /// The cache without the entry that was not used for the longest time.
    pub open spec fn evicted(self) -> AgedModel<V> {
        if exists|k: u128| self.is_oldest(k) {
            AgedModel { entries: self.entries.remove(choose|k: u128| self.is_oldest(k)), ..self }
        } else {
            self
        }
    }

    /// The cache after an age has been given out.
    pub open spec fn bumped(self) -> AgedModel<V> {
        AgedModel { next_age: age_after(self.next_age), ..self }
    }

    /// The cache after a look for a key, which counts as use.
    pub open spec fn touched(self, key: u128) -> AgedModel<V> {
        if self.entries.contains_key(key) {
            AgedModel {
                entries: self.entries.insert(
                    key,
                    Aged { value: self.entries[key].value, last_used: self.next_age },
                ),
                ..self.bumped()
            }
        } else {
            self.bumped()
        }
    }

    /// The cache after a value has been put in; if there is no room for a new
    /// key, the oldest entry gives way.
    pub open spec fn inserted(self, key: u128, value: V, limit: nat) -> AgedModel<V> {
        let room = if !self.entries.contains_key(key) && self.entries.dom().len() >= limit {
            self.evicted()
        } else {
            self
        };
        AgedModel {
            entries: room.entries.insert(key, Aged { value, last_used: self.next_age }),
            next_age: age_after(self.next_age),
        }
    }
}

impl<V> View for AgedCache<V> {
    type V = AgedModel<V>;

    closed spec fn view(&self) -> AgedModel<V> {
        AgedModel { entries: self.entries@, next_age: self.next_age }
    }
}

impl<V> AgedCache<V> {
    /// The keys are in order.
    pub closed spec fn wf(&self) -> bool {
        self.entries.wf()
    }

    /// The keys in order.
    pub closed spec fn keys(&self) -> Seq<u128> {
        self.entries.keys()
    }

    /// What the keys in order have to do with the cache.
    pub proof fn keys_list_domain(&self)
        requires
            self.wf(),
        ensures
            increasing(self.keys()),
            forall|k: u128| self@.entries.contains_key(k) <==> #[trigger] self.keys().contains(k),
            self@.entries.dom().finite(),
            self@.entries.dom().len() == self.keys().len(),
    {
        self.entries.keys_list_domain();
    }

    /// An empty cache.
    pub fn new() -> (r: Self)
        ensures
            r.wf(),
            r@ == (AgedModel::<V> { entries: Map::empty(), next_age: 1 }),
    {
        AgedCache { entries: IntMap::new(), next_age: 1 }
    }

    /// How many entries there are.
    pub fn len(&self) -> (n: usize)
        requires
            self.wf(),
        ensures
            n == self@.entries.dom().len(),
            n == self.keys().len(),
    {
        self.entries.len()
    }

    /// The key at a place in the order.
    pub fn key_at(&self, i: usize) -> (k: u128)
        requires
            i < self.keys().len(),
        ensures
            k == self.keys()[i as int],
    {
        self.entries.key_at(i)
    }

    /// The place of the first key that is not below `key`.
    pub fn lower_bound(&self, key: u128) -> (i: usize)
        requires
            self.wf(),
        ensures
            i <= self.keys().len(),
            forall|j: int| 0 <= j < i ==> #[trigger] self.keys()[j] < key,
            forall|j: int| i <= j < self.keys().len() ==> #[trigger] self.keys()[j] >= key,
    {
        self.entries.lower_bound(key)
    }

    /// Gives out an age.
    pub fn bump_age(&mut self) -> (age: u64)
        requires
            old(self).wf(),
        ensures
            final(self).wf(),
            age == old(self)@.next_age,
            final(self)@ == old(self)@.bumped(),
    {
        let age: u64 = self.next_age;
        self.next_age = if age == u64::MAX {
            1
        } else {
            age + 1
        };
        age
    }

    /// The value of a key, without counting as use.
    pub fn peek(&self, key: u128) -> (r: Option<&V>)
        requires
            self.wf(),
        ensures
            match r {
                Some(v) => self@.entries.contains_key(key) && *v == self@.entries[key].value,
                None => !self@.entries.contains_key(key),
            },
    {
        match self.entries.get(key) {
            Some(e) => Some(&e.value),
            None => None,
        }
    }

    /// Whether a key has a value.
    pub fn contains_key(&self, key: u128) -> (r: bool)
        requires
            self.wf(),
        ensures
            r == self@.entries.contains_key(key),
    {
        self.entries.contains_key(key)
    }

    /// Looks for a key, which counts as use, and says whether it is there.
    pub fn touch(&mut self, key: u128) -> (r: bool)
        requires
            old(self).wf(),
        ensures
            final(self).wf(),
            r == old(self)@.entries.contains_key(key),
            final(self)@ == old(self)@.touched(key),
    {
        let ghost before = self@;
        let age: u64 = self.bump_age();
        match self.entries.remove(key) {
            Some(e) => {
                self.entries.insert(key, Aged { value: e.value, last_used: age });
                assert(self@.entries =~= before.touched(key).entries);
                true
            },
            None => {
                assert(self@.entries =~= before.entries);
                false
            },
        }
    }

    /// Takes a key away.
    pub fn remove(&mut self, key: u128) -> (r: bool)
        requires
            old(self).wf(),
        ensures
            final(self).wf(),
            r == old(self)@.entries.contains_key(key),
            final(self)@ == (AgedModel {
                entries: old(self)@.entries.remove(key),
                ..old(self)@
            }),
    {
        self.entries.remove(key).is_some()
    }

    fn oldest(&self) -> (r: Option<u128>)
        requires
            self.wf(),
        ensures
            match r {
                Some(k) => self@.is_oldest(k),
                None => self@.entries.dom().len() == 0 && !(exists|k: u128| self@.is_oldest(k)),
            },
    {
        let n: usize = self.entries.len();
        proof {
            self.entries.keys_list_domain();
        }
        if n == 0 {
            proof {
                assert forall|k: u128| !self@.is_oldest(k) by {
                    assert(!self.entries.keys().contains(k));
                }
            }
            return None;
        }
        let mut best: usize = 0;
        let mut i: usize = 1;
        while i < n
            invariant
                self.wf(),
                n == self.entries.keys().len(),
                0 <= best < i <= n,
                increasing(self.entries.keys()),
                forall|j: int|
                    0 <= j < n ==> self@.entries.contains_key(#[trigger] self.entries.keys()[j])
                        && self@.entries[self.entries.keys()[j]] == self.entries.values()[j],
                self.entries.keys().len() == self.entries.values().len(),
                forall|j: int|
                    0 <= j < i ==> self.entries.values()[best as int].last_used < (
                    #[trigger] self.entries.values()[j]).last_used || (
                    self.entries.values()[best as int].last_used
                        == self.entries.values()[j].last_used && best <= j),
            decreases n - i,
        {
            if self.entries.value_at(i).last_used < self.entries.value_at(best).last_used {
                best = i;
            }
            i = i + 1;
        }
        let k: u128 = self.entries.key_at(best);
        assert forall|q: u128| #[trigger] self@.entries.contains_key(q) implies
            self@.entries[k].last_used < self@.entries[q].last_used || (
        self@.entries[k].last_used == self@.entries[q].last_used && k <= q) by {
            assert(self.entries.keys().contains(q));
            let j = choose|j: int| 0 <= j < n && self.entries.keys()[j] == q;
            assert(self.entries.values()[j].last_used == self@.entries[q].last_used);
            assert(self.entries.keys()[best as int] == k);
        }
        Some(k)
    }

    /// Takes the oldest entry away.
    pub fn evict_one(&mut self)
        requires
            old(self).wf(),
        ensures
            final(self).wf(),
            final(self)@ == old(self)@.evicted(),
    {
        let ghost before = self@;
        match self.oldest() {
            Some(k) => {
                proof {
                    let c = choose|c: u128| before.is_oldest(c);
                    assert(before.is_oldest(c));
                    assert(before.is_oldest(k));
                    assert(before.entries.contains_key(c) && before.entries.contains_key(k));
                }
                let _ = self.entries.remove(k);
            },
            None => {},
        }
    }

    /// Puts a value in; if there is no room for a new key, the oldest entry
    /// gives way.
    pub fn insert(&mut self, key: u128, value: V, limit: usize)
        requires
            old(self).wf(),
        ensures
            final(self).wf(),
            final(self)@ == old(self)@.inserted(key, value, limit as nat),
    {
        let ghost before = self@;
        let age: u64 = self.bump_age();
        if !self.entries.contains_key(key) && self.entries.len() >= limit {
            let ghost bumped = self@;
            self.evict_one();
            proof {
                lemma_evict_ignores_age(before);
            }
        }
        self.entries.insert(key, Aged { value, last_used: age });
    }

    /// Takes all keys from `lo` to `hi` away.
    pub fn remove_range(&mut self, lo: u128, hi: u128)
        requires
            old(self).wf(),
        ensures
            final(self).wf(),
            final(self)@ == (AgedModel {
                entries: old(self)@.entries.remove_keys(Set::new(|k: u128| lo <= k <= hi)),
                ..old(self)@
            }),
    {
        let ghost before = self@;
        let mut i: usize = self.entries.lower_bound(lo);
        while i < self.entries.len() && self.entries.key_at(i) <= hi
            invariant
                self.wf(),
                self.next_age == before.next_age,
                i <= self.entries.keys().len(),
                forall|j: int| 0 <= j < i ==> #[trigger] self.entries.keys()[j] < lo,
                forall|j: int|
                    i <= j < self.entries.keys().len() ==> #[trigger] self.entries.keys()[j] >= lo,
                forall|k: u128| #[trigger]
                    self.entries@.contains_key(k) ==> before.entries.contains_key(k)
                        && before.entries[k] == self.entries@[k],
                forall|k: u128| #[trigger]
                    before.entries.contains_key(k) ==> self.entries@.contains_key(k) || lo <= k
                        <= hi,
            decreases self.entries.keys().len(),
        {
            let key: u128 = self.entries.key_at(i);
            let ghost n = self.entries.keys().len();
            proof {
                self.entries.keys_list_domain();
            }
            let _ = self.entries.remove(key);
            proof {
                self.entries.keys_list_domain();
            }
            i = self.entries.lower_bound(lo);
        }
        proof {
            self.entries.keys_list_domain();
            assert forall|k: u128| self.entries@.contains_key(k) implies !(lo <= k <= hi) by {
                assert(self.entries.keys().contains(k));
                let j = choose|j: int|
                    0 <= j < self.entries.keys().len() && self.entries.keys()[j] == k;
                if i <= j {
                    assert(self.entries.keys()[i as int] > hi);
                    if i < j {
                        assert(self.entries.keys()[i as int] < self.entries.keys()[j]);
                    }
                }
            }
            assert(self@.entries =~= before.entries.remove_keys(
                Set::new(|k: u128| lo <= k <= hi),
            ));
        }
    }

    /// Takes all entries away.
    pub fn clear(&mut self)
        ensures
            final(self).wf(),
            final(self)@ == (AgedModel::<V> {
                entries: Map::empty(),
                next_age: old(self)@.next_age,
            }),
    {
        self.entries.clear();
    }
}

proof fn lemma_evict_ignores_age<V>(m: AgedModel<V>)
    ensures
        m.bumped().evicted() == m.evicted().bumped(),
{
    let b = m.bumped();
    assert forall|k: u128| b.is_oldest(k) == m.is_oldest(k) by {}
    if exists|k: u128| m.is_oldest(k) {
        let k = choose|k: u128| m.is_oldest(k);
        assert(m.is_oldest(k));
        assert(b.is_oldest(k));
        let c = choose|c: u128| b.is_oldest(c);
        assert(b.is_oldest(c));
        assert(m.is_oldest(c));
        assert(m.entries.contains_key(c) && m.entries.contains_key(k));
        assert(c == k);
    } else {
        if exists|k: u128| b.is_oldest(k) {
            let k = choose|k: u128| b.is_oldest(k);
            assert(m.is_oldest(k));
        }
    }
}

/// Putting a value in makes it the value of its key, and keeps every other
/// value that stays.
pub proof fn inserted_value_is_found<V>(m: AgedModel<V>, key: u128, value: V, limit: nat)
    ensures
        m.inserted(key, value, limit).entries.contains_key(key),
        m.inserted(key, value, limit).entries[key].value == value,
        forall|q: u128| #[trigger]
            m.inserted(key, value, limit).entries.contains_key(q) && q != key
                ==> m.entries.contains_key(q) && m.inserted(key, value, limit).entries[q]
                == m.entries[q],
{
}

/// A cache within its limit stays within it.
pub proof fn insert_keeps_limit<V>(m: AgedModel<V>, key: u128, value: V, limit: nat)
    requires
        m.entries.dom().finite(),
        m.entries.dom().len() <= limit,
        limit > 0,
    ensures
        m.inserted(key, value, limit).entries.dom().finite(),
        m.inserted(key, value, limit).entries.dom().len() <= limit,
{
    if !m.entries.contains_key(key) && m.entries.dom().len() >= limit {
        assert(m.entries.dom().len() > 0);
        lemma_oldest_exists(m);
        let k = choose|k: u128| m.is_oldest(k);
        assert(m.is_oldest(k));
        assert(m.evicted().entries.dom() =~= m.entries.dom().remove(k));
        assert(m.inserted(key, value, limit).entries.dom() =~= m.entries.dom().remove(k).insert(
            key,
        ));
    } else {
        assert(m.inserted(key, value, limit).entries.dom() =~= m.entries.dom().insert(key));
    }
}

/// A cache that is not empty has an oldest entry.
pub proof fn lemma_oldest_exists<V>(m: AgedModel<V>)
    requires
        m.entries.dom().finite(),
        m.entries.dom().len() > 0,
    ensures
        exists|k: u128| m.is_oldest(k),
    decreases m.entries.dom().len(),
{
    let x = m.entries.dom().choose();
    assert(m.entries.contains_key(x));
    let rest = AgedModel { entries: m.entries.remove(x), ..m };
    assert(rest.entries.dom() =~= m.entries.dom().remove(x));
    if rest.entries.dom().len() == 0 {
        assert(m.is_oldest(x)) by {
            assert forall|q: u128| #[trigger] m.entries.contains_key(q) implies q == x by {
                if q != x {
                    assert(rest.entries.dom().contains(q));
                }
            }
        }
    } else {
        lemma_oldest_exists(rest);
        let k = choose|k: u128| rest.is_oldest(k);
        assert(rest.is_oldest(k));
        let ek = m.entries[k];
        let ex = m.entries[x];
        let best = if ex.last_used < ek.last_used || (ex.last_used == ek.last_used && x <= k) {
            x
        } else {
            k
        };
        assert(m.is_oldest(best)) by {
            assert forall|q: u128| #[trigger] m.entries.contains_key(q) implies
                m.entries[best].last_used < m.entries[q].last_used || (m.entries[best].last_used
                == m.entries[q].last_used && best <= q) by {
                if q != x {
                    assert(rest.entries.contains_key(q));
                }
            }
        }
    }
}

/// What is put into a full cache takes the place of one value only, the one that
/// was not used for longest; all others stay as they were.
pub proof fn the_least_used_makes_room<V>(m: AgedModel<V>, key: u128, value: V, limit: nat, gone: u128)
    requires
        m.entries.contains_key(gone),
        gone != key,
        !m.inserted(key, value, limit).entries.contains_key(gone),
    ensures
        !m.entries.contains_key(key),
        m.entries.dom().len() >= limit,
        forall|k: u128| #[trigger]
            m.entries.contains_key(k) ==> m.entries[gone].last_used <= m.entries[k].last_used,
        forall|k: u128| #[trigger]
            m.entries.contains_key(k) && k != gone ==> m.inserted(
                key,
                value,
                limit,
            ).entries.contains_key(k) && m.inserted(key, value, limit).entries[k] == m.entries[k],
{
}

/// A value that was just used or put in counts as used later than all others, as
/// long as the count of uses has not begun anew.
pub proof fn used_last_is_newest<V>(m: AgedModel<V>, key: u128, value: V, limit: nat, other: u128)
    requires
        forall|k: u128| #[trigger]
            m.entries.contains_key(k) ==> m.entries[k].last_used < m.next_age,
        m.next_age < u64::MAX,
        other != key,
    ensures
        ({
            let put = m.inserted(key, value, limit);
            let used = m.touched(key);
            &&& put.entries.contains_key(key) && put.entries[key].value == value
            &&& put.entries.contains_key(other) ==> put.entries[other].last_used
                < put.entries[key].last_used
            &&& put.entries[key].last_used < put.next_age
            &&& used.entries.dom() == m.entries.dom()
            &&& m.entries.contains_key(key) ==> used.entries[key].value == m.entries[key].value
            &&& m.entries.contains_key(key) && m.entries.contains_key(other)
                ==> used.entries[other].last_used < used.entries[key].last_used
                && used.entries[other] == m.entries[other]
            &&& m.entries.contains_key(key) ==> used.entries[key].last_used < used.next_age
        }),
{
    assert(m.touched(key).entries.dom() =~= m.entries.dom());
}

} // verus!
