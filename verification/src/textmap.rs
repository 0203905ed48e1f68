//! An ordered map with text keys.
use vstd::prelude::*;

use crate::fs::path::{descends, is_descendant};
use crate::text::{
    concat, from_chars, lemma_text_lt_total, lemma_text_lt_transitive, str_eq, str_lt, text_lt,
    texts, to_chars,
};

verus! {

/// One key with its value.
pub struct TextEntry<V> {
    pub key: String,
    pub value: V,
}

/// A map from texts to values, kept in the order of its keys.
pub struct TextMap<V> {
    entries: Vec<TextEntry<V>>,
}

/// Each text comes before all that follow it.
pub open spec fn strictly_sorted(keys: Seq<Seq<char>>) -> bool {
    forall|i: int, j: int| 0 <= i < j < keys.len() ==> text_lt(#[trigger] keys[i], #[trigger] keys[j])
}

/// A listing of a set in order: each text once.
pub open spec fn lists(keys: Seq<Seq<char>>, set: Set<Seq<char>>) -> bool {
    strictly_sorted(keys) && (forall|k: Seq<char>| set.contains(k) <==> #[trigger] keys.contains(k))
}

/// Only one sequence lists a set in order.
pub proof fn listing_is_unique(a: Seq<Seq<char>>, b: Seq<Seq<char>>, set: Set<Seq<char>>)
    requires
        lists(a, set),
        lists(b, set),
    ensures
        a == b,
    decreases a.len(),
{
    if a.len() == 0 {
        if b.len() > 0 {
            assert(b.contains(b[0]));
            assert(a.contains(b[0]));
        }
        assert(a =~= b);
    } else if b.len() == 0 {
        assert(a.contains(a[0]));
        assert(b.contains(a[0]));
    } else {
        let x = a.last();
        let y = b.last();
        assert(a.contains(a[a.len() - 1]));
        assert(b.contains(b[b.len() - 1]));
        assert(b.contains(x) && a.contains(y));
        let i = choose|i: int| 0 <= i < b.len() && b[i] == x;
        let j = choose|j: int| 0 <= j < a.len() && a[j] == y;
        lemma_text_lt_total(x, y);
        if i < b.len() - 1 {
            assert(text_lt(b[i], b[b.len() - 1]));
            if j < a.len() - 1 {
                assert(text_lt(a[j], a[a.len() - 1]));
            }
        }
        assert(x == y);
        let rest = set.remove(x);
        let fa = a.drop_last();
        let fb = b.drop_last();
        assert forall|k: Seq<char>| rest.contains(k) <==> #[trigger] fa.contains(k) by {
            lemma_drop_last_contains(a, k);
        }
        assert forall|k: Seq<char>| rest.contains(k) <==> #[trigger] fb.contains(k) by {
            lemma_drop_last_contains(b, k);
        }
        assert(strictly_sorted(fa)) by {
            assert forall|i: int, j: int| 0 <= i < j < fa.len() implies text_lt(
                #[trigger] fa[i],
                #[trigger] fa[j],
            ) by {
                assert(fa[i] == a[i] && fa[j] == a[j]);
            }
        }
        assert(strictly_sorted(fb)) by {
            assert forall|i: int, j: int| 0 <= i < j < fb.len() implies text_lt(
                #[trigger] fb[i],
                #[trigger] fb[j],
            ) by {
                assert(fb[i] == b[i] && fb[j] == b[j]);
            }
        }
        listing_is_unique(fa, fb, rest);
        assert(a =~= fa.push(x));
        assert(b =~= fb.push(y));
    }
}

proof fn lemma_drop_last_contains(a: Seq<Seq<char>>, k: Seq<char>)
    requires
        strictly_sorted(a),
        a.len() > 0,
    ensures
        a.drop_last().contains(k) <==> (a.contains(k) && k != a.last()),
{
    let f = a.drop_last();
    if f.contains(k) {
        let i = choose|i: int| 0 <= i < f.len() && f[i] == k;
        assert(a[i] == k);
        assert(text_lt(a[i], a[a.len() - 1]));
        lemma_text_lt_total(k, a.last());
    }
    if a.contains(k) && k != a.last() {
        let i = choose|i: int| 0 <= i < a.len() && a[i] == k;
        assert(f[i] == k);
    }
}

impl<V> TextMap<V> {
    /// Where a key stands.
    spec fn slot(&self, k: Seq<char>) -> int {
        choose|i: int| 0 <= i < self.entries@.len() && (#[trigger] self.entries@[i]).key@ == k
    }

    /// The keys in order.
    pub closed spec fn keys(&self) -> Seq<Seq<char>> {
        self.entries@.map_values(|e: TextEntry<V>| e.key@)
    }

    /// The values in the order of their keys.
    pub closed spec fn values(&self) -> Seq<V> {
        self.entries@.map_values(|e: TextEntry<V>| e.value)
    }

    /// The keys are in order, each once.
    pub closed spec fn wf(&self) -> bool {
        strictly_sorted(self.keys())
    }

    /// What the keys in order have to do with the map.
    pub proof fn keys_list_domain(&self)
        requires
            self.wf(),
        ensures
            lists(self.keys(), self@.dom()),
            self.keys().len() == self.values().len(),
            forall|i: int|
                0 <= i < self.keys().len() ==> self@.contains_key(#[trigger] self.keys()[i])
                    && self@[self.keys()[i]] == self.values()[i],
            self@.dom().finite(),
            self@.dom().len() == self.keys().len(),
    {
        assert forall|k: Seq<char>| self@.dom().contains(k) <==> #[trigger] self.keys().contains(
            k,
        ) by {
            if self.keys().contains(k) {
                let i = choose|i: int| 0 <= i < self.keys().len() && self.keys()[i] == k;
                assert(self.entries@[i].key@ == k);
            }
            if self@.dom().contains(k) {
                let i = choose|i: int| 0 <= i < self.entries@.len() && self.entries@[i].key@ == k;
                assert(self.keys()[i] == k);
            }
        }
        assert forall|i: int| 0 <= i < self.keys().len() implies self@.contains_key(
            #[trigger] self.keys()[i],
        ) && self@[self.keys()[i]] == self.values()[i] by {
            self.lemma_entry(i);
        }
        assert(self.keys().no_duplicates()) by {
            assert forall|i: int, j: int|
                0 <= i < self.keys().len() && 0 <= j < self.keys().len() && i != j implies self.keys()[i]
                != self.keys()[j] by {
                lemma_text_lt_total(self.keys()[i], self.keys()[j]);
                if i < j {
                    assert(text_lt(self.keys()[i], self.keys()[j]));
                } else {
                    assert(text_lt(self.keys()[j], self.keys()[i]));
                }
            }
        }
        self.keys().unique_seq_to_set();
        assert(self.keys().to_set() =~= self@.dom());
    }

    proof fn lemma_entry(&self, i: int)
        requires
            self.wf(),
            0 <= i < self.entries@.len(),
        ensures
            self@.contains_key(self.entries@[i].key@),
            self@[self.entries@[i].key@] == self.entries@[i].value,
    {
        let k = self.entries@[i].key@;
        let j = self.slot(k);
        assert(self.entries@[j].key@ == k);
        assert(self.keys()[i] == k && self.keys()[j] == k);
        lemma_text_lt_total(k, k);
        if i < j {
            assert(text_lt(self.keys()[i], self.keys()[j]));
        } else if j < i {
            assert(text_lt(self.keys()[j], self.keys()[i]));
        }
    }

    /// An empty map.
    pub fn new() -> (r: Self)
        ensures
            r.wf(),
            r@ == Map::<Seq<char>, V>::empty(),
            r.keys() == Seq::<Seq<char>>::empty(),
    {
        let r = TextMap { entries: Vec::new() };
        assert(r@ =~= Map::<Seq<char>, V>::empty());
        assert(r.keys() =~= Seq::empty());
        r
    }

    /// How many keys there are.
    pub fn len(&self) -> (n: usize)
        requires
            self.wf(),
        ensures
            n == self.keys().len(),
            n == self@.dom().len(),
    {
        proof {
            self.keys_list_domain();
        }
        self.entries.len()
    }

    /// The key at a place in the order.
    pub fn key_at(&self, i: usize) -> (k: &String)
        requires
            i < self.keys().len(),
        ensures
            k@ == self.keys()[i as int],
    {
        &self.entries[i].key
    }

    /// The value at a place in the order.
    pub fn value_at(&self, i: usize) -> (v: &V)
        requires
            self.wf(),
            i < self.keys().len(),
        ensures
            *v == self.values()[i as int],
            self@.contains_key(self.keys()[i as int]),
            *v == self@[self.keys()[i as int]],
    {
        proof {
            self.lemma_entry(i as int);
        }
        &self.entries[i].value
    }

    fn position(&self, key: &str) -> (r: Option<usize>)
        requires
            self.wf(),
        ensures
            match r {
                Some(i) => i < self.entries@.len() && self.entries@[i as int].key@ == key@
                    && self@.contains_key(key@) && self@[key@] == self.entries@[i as int].value,
                None => !self@.contains_key(key@),
            },
    {
        let mut i: usize = 0;
        while i < self.entries.len()
            invariant
                self.wf(),
                0 <= i <= self.entries@.len(),
                forall|j: int| 0 <= j < i ==> (#[trigger] self.entries@[j]).key@ != key@,
            decreases self.entries@.len() - i,
        {
            if str_eq(self.entries[i].key.as_str(), key) {
                proof {
                    self.lemma_entry(i as int);
                }
                return Some(i);
            }
            i = i + 1;
        }
        None
    }

    /// The value of a key.
    pub fn get(&self, key: &str) -> (r: Option<&V>)
        requires
            self.wf(),
        ensures
            match r {
                Some(v) => self@.contains_key(key@) && *v == self@[key@],
                None => !self@.contains_key(key@),
            },
    {
        match self.position(key) {
            Some(i) => Some(&self.entries[i].value),
            None => None,
        }
    }

    /// Whether a key has a value.
    pub fn contains_key(&self, key: &str) -> (r: bool)
        requires
            self.wf(),
        ensures
            r == self@.contains_key(key@),
    {
        self.position(key).is_some()
    }

    /// Gives a key a value.
    pub fn insert(&mut self, key: String, value: V)
        requires
            old(self).wf(),
        ensures
            final(self).wf(),
            final(self)@ == old(self)@.insert(key@, value),
    {
        let ghost before = *self;
        let ghost k = key@;
        let mut i: usize = 0;
        while i < self.entries.len() && str_lt(self.entries[i].key.as_str(), key.as_str())
            invariant
                0 <= i <= self.entries@.len(),
                *self == before,
                before.wf(),
                key@ == k,
                forall|j: int| 0 <= j < i ==> text_lt(#[trigger] self.entries@[j].key@, k),
            decreases self.entries@.len() - i,
        {
            i = i + 1;
        }
        if i < self.entries.len() && str_eq(self.entries[i].key.as_str(), key.as_str()) {
            let _ = self.entries.remove(i);
            self.entries.insert(i, TextEntry { key, value });
            assert(self.keys() =~= before.keys());
        } else {
            proof {
                if i < self.entries@.len() {
                    lemma_text_lt_total(before.keys()[i as int], k);
                }
            }
            self.entries.insert(i, TextEntry { key, value });
            assert(self.keys() =~= before.keys().insert(i as int, k));
            assert(self.wf()) by {
                let ks = self.keys();
                assert forall|a: int, b: int| 0 <= a < b < ks.len() implies text_lt(
                    #[trigger] ks[a],
                    #[trigger] ks[b],
                ) by {
                    let old_a = if a < i { a } else { a - 1 };
                    let old_b = if b < i { b } else { b - 1 };
                    if a != i && b != i {
                        assert(ks[a] == before.keys()[old_a] && ks[b] == before.keys()[old_b]);
                    } else if a == i {
                        assert(ks[b] == before.keys()[old_b]);
                        assert(text_lt(k, before.keys()[i as int]));
                        if old_b > i {
                            lemma_text_lt_transitive(
                                k,
                                before.keys()[i as int],
                                before.keys()[old_b],
                            );
                        }
                    } else {
                        assert(ks[a] == before.keys()[old_a]);
                        assert(text_lt(before.entries@[a].key@, k));
                    }
                }
            }
        }
        assert(self@ =~= before@.insert(k, value)) by {
            assert(self.entries@[i as int].key@ == k);
            assert forall|q: Seq<char>| self@.contains_key(q) == before@.insert(k, value).contains_key(
                q,
            ) by {
                if before@.contains_key(q) {
                    let j = choose|j: int|
                        0 <= j < before.entries@.len() && before.entries@[j].key@ == q;
                    if self.entries@.len() == before.entries@.len() || j < i {
                        assert(self.entries@[j].key@ == q);
                    } else {
                        assert(self.entries@[j + 1].key@ == q);
                    }
                }
                if self@.contains_key(q) && q != k {
                    let j = choose|j: int|
                        0 <= j < self.entries@.len() && self.entries@[j].key@ == q;
                    if self.entries@.len() == before.entries@.len() || j < i {
                        assert(before.entries@[j].key@ == q);
                    } else {
                        assert(before.entries@[j - 1].key@ == q);
                    }
                }
            }
            assert forall|q: Seq<char>| self@.contains_key(q) implies self@[q] == before@.insert(
                k,
                value,
            )[q] by {
                let j = choose|j: int| 0 <= j < self.entries@.len() && self.entries@[j].key@ == q;
                self.lemma_entry(j);
                if q != k {
                    if self.entries@.len() == before.entries@.len() || j < i {
                        assert(before.entries@[j] == self.entries@[j]);
                        before.lemma_entry(j);
                    } else {
                        assert(before.entries@[j - 1] == self.entries@[j]);
                        before.lemma_entry(j - 1);
                    }
                } else {
                    self.lemma_entry(i as int);
                }
            }
        }
    }

    /// Takes a key away and gives back its value.
    pub fn remove(&mut self, key: &str) -> (r: Option<V>)
        requires
            old(self).wf(),
        ensures
            final(self).wf(),
            final(self)@ == old(self)@.remove(key@),
            match r {
                Some(v) => old(self)@.contains_key(key@) && v == old(self)@[key@],
                None => !old(self)@.contains_key(key@),
            },
    {
        let ghost before = *self;
        match self.position(key) {
            Some(i) => {
                let e = self.entries.remove(i);
                proof {
                    assert(self.keys() =~= before.keys().remove(i as int));
                    let ks = self.keys();
                    assert forall|a: int, b: int| 0 <= a < b < ks.len() implies text_lt(
                        #[trigger] ks[a],
                        #[trigger] ks[b],
                    ) by {
                        let old_a = if a < i { a } else { a + 1 };
                        let old_b = if b < i { b } else { b + 1 };
                        assert(ks[a] == before.keys()[old_a] && ks[b] == before.keys()[old_b]);
                    }
                    assert forall|q: Seq<char>|
                        self@.contains_key(q) == before@.remove(key@).contains_key(q) by {
                        if before@.contains_key(q) && q != key@ {
                            let j = choose|j: int|
                                0 <= j < before.entries@.len() && before.entries@[j].key@ == q;
                            if j < i {
                                assert(self.entries@[j].key@ == q);
                            } else {
                                assert(self.entries@[j - 1].key@ == q);
                            }
                        }
                        if self@.contains_key(q) {
                            let j = choose|j: int|
                                0 <= j < self.entries@.len() && self.entries@[j].key@ == q;
                            let o = if j < i { j } else { j + 1 };
                            assert(before.entries@[o].key@ == q);
                            assert(before.keys()[o] == q && before.keys()[i as int] == key@);
                            lemma_text_lt_total(q, key@);
                            if o < i {
                                assert(text_lt(before.keys()[o], before.keys()[i as int]));
                            } else {
                                assert(text_lt(before.keys()[i as int], before.keys()[o]));
                            }
                        }
                    }
                    assert forall|q: Seq<char>| self@.contains_key(q) implies self@[q]
                        == before@.remove(key@)[q] by {
                        let j = choose|j: int|
                            0 <= j < self.entries@.len() && self.entries@[j].key@ == q;
                        self.lemma_entry(j);
                        let o = if j < i { j } else { j + 1 };
                        assert(before.entries@[o] == self.entries@[j]);
                        before.lemma_entry(o);
                    }
                    assert(self@ =~= before@.remove(key@));
                }
                Some(e.value)
            },
            None => {
                assert(self@ =~= before@.remove(key@));
                None
            },
        }
    }
}

/// Whether a path is a directory or lies below it; all lies below the root.
pub open spec fn in_tree(dir: Seq<char>, path: Seq<char>) -> bool {
    dir == seq!['/'] || path == dir || descends(dir, path)
}

impl<V> TextMap<V> {
    /// Takes a directory and all below it away.
    pub fn drop_tree(&mut self, dir: &str)
        requires
            old(self).wf(),
        ensures
            final(self).wf(),
            final(self)@ == old(self)@.remove_keys(Set::new(|k: Seq<char>| in_tree(dir@, k))),
    {
        let ghost before = self@;
        let mut i: usize = 0;
        while i < self.entries.len()
            invariant
                self.wf(),
                0 <= i <= self.entries@.len(),
                forall|j: int| 0 <= j < i ==> !in_tree(dir@, #[trigger] self.keys()[j]),
                forall|k: Seq<char>| #[trigger]
                    self@.contains_key(k) ==> before.contains_key(k) && before[k] == self@[k],
                forall|k: Seq<char>| #[trigger]
                    before.contains_key(k) ==> self@.contains_key(k) || in_tree(dir@, k),
            decreases self.entries@.len() - i,
        {
            proof {
                reveal_strlit("/");
                assert("/"@ =~= seq!['/']);
            }
            let path = self.entries[i].key.clone();
            assert(self.keys()[i as int] == path@);
            if str_eq(dir, "/") || str_eq(path.as_str(), dir) || is_descendant(dir, path.as_str()) {
                let ghost now = *self;
                proof {
                    self.lemma_entry(i as int);
                }
                let _ = self.remove(path.as_str());
                proof {
                    now.keys_list_domain();
                    self.keys_list_domain();
                    lemma_keys_after_remove(&now, self, i as int);
                    assert forall|j: int| 0 <= j < i implies !in_tree(
                        dir@,
                        #[trigger] self.keys()[j],
                    ) by {
                        assert(self.keys()[j] == now.keys()[j]);
                    }
                }
            } else {
                i = i + 1;
            }
        }
        proof {
            self.keys_list_domain();
            assert forall|k: Seq<char>| self@.contains_key(k) implies !in_tree(dir@, k) by {
                assert(self.keys().contains(k));
            }
            assert(self@ =~= before.remove_keys(Set::new(|k: Seq<char>| in_tree(dir@, k))));
        }
    }

    /// Takes all keys away.
    pub fn clear(&mut self)
        ensures
            final(self).wf(),
            final(self)@ == Map::<Seq<char>, V>::empty(),
    {
        *self = TextMap::new();
    }
}

/// Taking away the key at a place takes it out of the keys in order.
proof fn lemma_keys_after_remove<V>(before: &TextMap<V>, after: &TextMap<V>, i: int)
    requires
        before.wf(),
        after.wf(),
        0 <= i < before.keys().len(),
        after@ == before@.remove(before.keys()[i]),
    ensures
        after.keys() == before.keys().remove(i),
{
    before.keys_list_domain();
    after.keys_list_domain();
    let ks = before.keys().remove(i);
    let x = before.keys()[i];
    assert(strictly_sorted(ks)) by {
        assert forall|a: int, b: int| 0 <= a < b < ks.len() implies text_lt(
            #[trigger] ks[a],
            #[trigger] ks[b],
        ) by {
            let oa = if a < i { a } else { a + 1 };
            let ob = if b < i { b } else { b + 1 };
            assert(ks[a] == before.keys()[oa] && ks[b] == before.keys()[ob]);
        }
    }
    assert forall|k: Seq<char>| after@.dom().contains(k) <==> #[trigger] ks.contains(k) by {
        if ks.contains(k) {
            let j = choose|j: int| 0 <= j < ks.len() && ks[j] == k;
            let o = if j < i { j } else { j + 1 };
            assert(before.keys()[o] == k);
            assert(before.keys().contains(k));
            lemma_text_lt_total(k, x);
            if o < i {
                assert(text_lt(before.keys()[o], before.keys()[i]));
            } else {
                assert(text_lt(before.keys()[i], before.keys()[o]));
            }
        }
        if after@.dom().contains(k) {
            assert(before@.dom().contains(k));
            assert(before.keys().contains(k));
            let o = choose|o: int| 0 <= o < before.keys().len() && before.keys()[o] == k;
            let j = if o < i { o } else { o - 1 };
            assert(ks[j] == k);
        }
    }
    listing_is_unique(after.keys(), ks, after@.dom());
}

impl<V> View for TextMap<V> {
    type V = Map<Seq<char>, V>;

    closed spec fn view(&self) -> Map<Seq<char>, V> {
        Map::new(
            |k: Seq<char>|
                exists|i: int| 0 <= i < self.entries@.len() && (#[trigger] self.entries@[i]).key@ == k,
            |k: Seq<char>| self.entries@[self.slot(k)].value,
        )
    }
}

/// The listing of a set in order.
pub open spec fn listing(set: Set<Seq<char>>) -> Seq<Seq<char>> {
    choose|keys: Seq<Seq<char>>| lists(keys, set)
}

/// Values of which an equal second one can be made.
pub trait Snapshot: Sized {
    /// An equal value.
    fn snapshot(&self) -> (r: Self)
        ensures
            r == *self,
    ;
}

impl Snapshot for String {
    fn snapshot(&self) -> (r: Self) {
        self.clone()
    }
}

/// Whether a path is moved along with a directory: it lies below it, or is the
/// directory itself where that moves too.
pub open spec fn moves(old: Seq<char>, path: Seq<char>, with_self: bool) -> bool {
    descends(old, path) || (with_self && path == old)
}

/// Where a path goes when the directory in front of it is renamed.
pub open spec fn moved_path(old: Seq<char>, new: Seq<char>, path: Seq<char>) -> Seq<char> {
    new + path.skip(old.len() as int)
}

/// A map after its moving keys, one by one in the given order, have been taken
/// away and put back under their new paths with their first values.
pub open spec fn moved_keys<V>(
    first: Map<Seq<char>, V>,
    keys: Seq<Seq<char>>,
    old: Seq<char>,
    new: Seq<char>,
    with_self: bool,
) -> Map<Seq<char>, V>
    decreases keys.len(),
{
    if keys.len() == 0 {
        first
    } else {
        let before = moved_keys(first, keys.drop_last(), old, new, with_self);
        let k = keys.last();
        if moves(old, k, with_self) {
            before.remove(k).insert(moved_path(old, new, k), first[k])
        } else {
            before
        }
    }
}

/// Whether a path is moved along with a directory.
pub fn is_moved(old: &str, path: &str, with_self: bool) -> (r: bool)
    ensures
        r == moves(old@, path@, with_self),
{
    is_descendant(old, path) || (with_self && str_eq(path, old))
}

/// Where a path goes when the directory in front of it is renamed.
pub fn rename_prefix(old: &str, new: &str, path: &str) -> (r: String)
    requires
        old@.len() <= path@.len(),
    ensures
        r@ == moved_path(old@, new@, path@),
{
    let chars = to_chars(path);
    let n: usize = to_chars(old).len();
    let tail = from_chars(&chars, n, chars.len());
    assert(tail@ =~= path@.skip(old@.len() as int));
    concat(new, tail.as_str())
}

impl<V: Snapshot> TextMap<V> {
    /// Renames a directory in front of all keys that lie below it.
    pub fn move_keys(&mut self, from: &str, to: &str, with_self: bool)
        requires
            old(self).wf(),
        ensures
            final(self).wf(),
            final(self)@ == moved_keys(
                old(self)@,
                listing(old(self)@.dom()),
                from@,
                to@,
                with_self,
            ),
    {
        let ghost first = self@;
        let ghost order = self.keys();
        proof {
            self.keys_list_domain();
            listing_is_unique(order, listing(first.dom()), first.dom());
        }
        let mut names: Vec<String> = Vec::new();
        let mut held: Vec<V> = Vec::new();
        let mut i: usize = 0;
        while i < self.len()
            invariant
                self.wf(),
                self@ == first,
                self.keys() == order,
                0 <= i <= order.len(),
                texts(names@) == order.take(i as int),
                held@.len() == i,
                forall|j: int| 0 <= j < i ==> #[trigger] held@[j] == first[order[j]],
            decreases order.len() - i,
        {
            let ghost before = texts(names@);
            names.push(self.key_at(i).clone());
            held.push(self.value_at(i).snapshot());
            assert(texts(names@) =~= before.push(order[i as int]));
            assert(order.take(i + 1) =~= order.take(i as int).push(order[i as int]));
            i = i + 1;
        }
        assert(order.take(i as int) =~= order);
        let mut k: usize = 0;
        assert(order.take(0) =~= Seq::empty());
        while k < names.len()
            invariant
                self.wf(),
                texts(names@) == order,
                names@.len() == order.len(),
                held@.len() == order.len(),
                forall|j: int| 0 <= j < order.len() ==> #[trigger] held@[j] == first[order[j]],
                0 <= k <= order.len(),
                self@ == moved_keys(first, order.take(k as int), from@, to@, with_self),
            decreases order.len() - k,
        {
            proof {
                let next = order.take(k + 1);
                assert(next.drop_last() =~= order.take(k as int));
                assert(next.last() == names@[k as int]@);
                assert(texts(names@)[k as int] == names@[k as int]@);
            }
            if is_moved(from, names[k].as_str(), with_self) {
                let path = rename_prefix(from, to, names[k].as_str());
                let _ = self.remove(names[k].as_str());
                self.insert(path, held[k].snapshot());
            }
            k = k + 1;
        }
        assert(order.take(k as int) =~= order);
    }
}

/// The listing of a map's keys is the one the map is kept in.
pub proof fn listing_of_map<V>(m: &TextMap<V>)
    requires
        m.wf(),
    ensures
        m.keys() == listing(m@.dom()),
{
    m.keys_list_domain();
    listing_is_unique(m.keys(), listing(m@.dom()), m@.dom());
}

} // verus!
