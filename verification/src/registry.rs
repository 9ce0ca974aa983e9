//! Caches of values under keys: a registry remembers the last value stored under each key.
use vstd::prelude::*;

use crate::eval_args::EvalArgs;
use crate::location::{AttributePath, NixFileReference, NixReference, RepositoryReference};

verus! {

/// A key whose equality is that of its abstract value.
pub trait RegistryKey: View + Sized {
    /// Whether `self` and `other` are the same key.
    fn same_key(&self, other: &Self) -> (r: bool)
        ensures
            r == (self@ == other@),
    ;

    /// A copy of `self`.
    fn copy_key(&self) -> (r: Self)
        ensures
            r@ == self@,
    ;
}

/// A value that a registry can hand out copies of.
pub trait RegistryValue: View + Sized {
    /// A copy of `self`.
    fn duplicate(&self) -> (r: Self)
        ensures
            r@ == self@,
    ;
}

/// The value of the first entry with key `k`, if there is one.
pub open spec fn find<K, V>(e: Seq<(K, V)>, k: K) -> Option<V>
    decreases e.len(),
{
    if e.len() == 0 {
        None
    } else if e[0].0 == k {
        Some(e[0].1)
    } else {
        find(e.drop_first(), k)
    }
}

/// The entries after storing `v` under `k`: the first entry with key `k` is replaced if there
/// is one, and an entry is appended otherwise.
pub open spec fn put<K, V>(e: Seq<(K, V)>, k: K, v: V) -> Seq<(K, V)>
    decreases e.len(),
{
    if e.len() == 0 {
        seq![(k, v)]
    } else if e[0].0 == k {
        seq![(k, v)] + e.drop_first()
    } else {
        seq![e[0]] + put(e.drop_first(), k, v)
    }
}

/// The map that a list of entries stands for: each key maps to the value of its first entry.
pub open spec fn entries_map<K, V>(e: Seq<(K, V)>) -> Map<K, V> {
    Map::new(|k: K| find(e, k) is Some, |k: K| find(e, k).unwrap())
}

/// After storing `v` under `k`, `k` finds `v` and every other key finds what it found before.
pub proof fn lemma_find_put<K, V>(e: Seq<(K, V)>, k: K, v: V, k2: K)
    ensures
        find(put(e, k, v), k) == Some(v),
        k2 != k ==> find(put(e, k, v), k2) == find(e, k2),
    decreases e.len(),
{
    let r = put(e, k, v);
    if e.len() == 0 {
        assert(r[0] == (k, v));
        assert(r.drop_first().len() == 0);
        assert(find(r.drop_first(), k2) is None);
    } else {
        lemma_find_put(e.drop_first(), k, v, k2);
        if e[0].0 == k {
            assert(r[0] == (k, v));
            assert(r.drop_first() == e.drop_first());
        } else {
            assert(r[0] == e[0]);
            assert(r.drop_first() == put(e.drop_first(), k, v));
        }
    }
}

/// Storing at the position of the first entry with the key, or at the end if there is none.
proof fn lemma_put_at<K, V>(e: Seq<(K, V)>, k: K, v: V, i: int)
    requires
        0 <= i <= e.len(),
        forall|j: int| 0 <= j < i ==> (#[trigger] e[j]).0 != k,
        i < e.len() ==> e[i].0 == k,
    ensures
        i < e.len() ==> put(e, k, v) == e.update(i, (k, v)),
        i == e.len() ==> put(e, k, v) == e.push((k, v)),
    decreases i,
{
    if i == 0 {
        if e.len() > 0 {
            assert(seq![(k, v)] + e.drop_first() == e.update(0, (k, v)));
        }
    } else {
        let t = e.drop_first();
        assert forall|j: int| 0 <= j < i - 1 implies (#[trigger] t[j]).0 != k by {
            assert(t[j] == e[j + 1]);
        }
        lemma_put_at(t, k, v, i - 1);
        if i < e.len() {
            assert(seq![e[0]] + t.update(i - 1, (k, v)) == e.update(i, (k, v)));
        } else {
            assert(seq![e[0]] + t.push((k, v)) == e.push((k, v)));
        }
    }
}

/// The abstract entries of a list of key-value pairs.
pub open spec fn entries_view<K: View, V: View>(e: Seq<(K, V)>) -> Seq<(K::V, V::V)> {
    e.map_values(|p: (K, V)| (p.0@, p.1@))
}

/// A cache that maps keys to the last value stored under them.
pub struct Registry<K, V> {
    entries: Vec<(K, V)>,
}

impl<K: View, V: View> View for Registry<K, V> {
    type V = Map<K::V, V::V>;

    closed spec fn view(&self) -> Map<K::V, V::V> {
        entries_map(entries_view(self.entries@))
    }
}

impl<K: RegistryKey, V: RegistryValue> Registry<K, V> {
    /// An empty registry.
    pub fn new() -> (r: Self)
        ensures
            r@ == Map::<K::V, V::V>::empty(),
    {
        let r = Registry { entries: Vec::new() };
        assert(r@ =~= Map::<K::V, V::V>::empty());
        r
    }

    /// A copy of the value stored under `key`, if there is one.
    pub fn lookup(&self, key: &K) -> (r: Option<V>)
        ensures
            match r {
                Some(v) => self@.contains_key(key@) && v@ == self@[key@],
                None => !self@.contains_key(key@),
            },
    {
        let ghost e = entries_view(self.entries@);
        let mut i: usize = 0;
        assert(e.skip(0) == e);
        while i < self.entries.len()
            invariant
                e == entries_view(self.entries@),
                0 <= i <= e.len(),
                find(e, key@) == find(e.skip(i as int), key@),
            decreases self.entries.len() - i,
        {
            assert(e.skip(i as int)[0] == e[i as int]);
            assert(e.skip(i as int).drop_first() == e.skip(i + 1));
            if self.entries[i].0.same_key(key) {
                return Some(self.entries[i].1.duplicate());
            }
            i = i + 1;
        }
        None
    }

    /// A copy of the registry.
    pub fn duplicate(&self) -> (r: Self)
        ensures
            r@ == self@,
    {
        let mut entries: Vec<(K, V)> = Vec::new();
        let mut i: usize = 0;
        while i < self.entries.len()
            invariant
                0 <= i <= self.entries@.len(),
                entries_view(entries@) == entries_view(self.entries@).take(i as int),
            decreases self.entries.len() - i,
        {
            let ghost before = entries_view(entries@);
            entries.push((self.entries[i].0.copy_key(), self.entries[i].1.duplicate()));
            assert(entries_view(entries@) == before.push(entries_view(self.entries@)[i as int]));
            assert(entries_view(self.entries@).take(i + 1) == entries_view(self.entries@).take(i as int).push(
                entries_view(self.entries@)[i as int],
            ));
            i = i + 1;
        }
        assert(entries_view(self.entries@).take(i as int) == entries_view(self.entries@));
        Registry { entries }
    }

    /// Stores `value` under `key`, replacing what was stored under it before.
    pub fn store(&mut self, key: K, value: V)
        ensures
            final(self)@ == old(self)@.insert(key@, value@),
    {
        let ghost e = entries_view(self.entries@);
        let ghost kv = (key@, value@);
        let mut i: usize = 0;
        while i < self.entries.len() && !self.entries[i].0.same_key(&key)
            invariant
                e == entries_view(self.entries@),
                0 <= i <= e.len(),
                forall|j: int| 0 <= j < i ==> (#[trigger] e[j]).0 != key@,
            decreases self.entries.len() - i,
        {
            i = i + 1;
        }
        proof {
            lemma_put_at(e, key@, value@, i as int);
        }
        if i < self.entries.len() {
            self.entries.set(i, (key, value));
            assert(entries_view(self.entries@) == e.update(i as int, kv));
        } else {
            self.entries.push((key, value));
            assert(entries_view(self.entries@) == e.push(kv));
        }
        proof {
            let r = put(e, kv.0, kv.1);
            assert forall|k2: K::V| #[trigger] entries_map(r).contains_key(k2) == old(
                self,
            )@.insert(kv.0, kv.1).contains_key(k2) && (entries_map(r).contains_key(k2)
                ==> entries_map(r)[k2] == old(self)@.insert(kv.0, kv.1)[k2]) by {
                lemma_find_put(e, kv.0, kv.1, k2);
            }
            assert(entries_map(r) =~= old(self)@.insert(kv.0, kv.1));
        }
    }
}

/// A value stored under a key is what a lookup of that key gives, and storing under one key
/// leaves what every other key gives unchanged.
pub proof fn law_lookup_after_store<K, V>(m: Map<K, V>, k: K, v: V, other: K)
    ensures
        m.insert(k, v).contains_key(k) && m.insert(k, v)[k] == v,
        other != k ==> (m.insert(k, v).contains_key(other) == m.contains_key(other)),
        other != k && m.contains_key(other) ==> m.insert(k, v)[other] == m[other],
{
}

/// The registry's contents after storing each value under its key, in order, starting from `m`.
pub open spec fn stored_all<K, V>(m: Map<K, V>, stores: Seq<(K, V)>) -> Map<K, V>
    decreases stores.len(),
{
    if stores.len() == 0 {
        m
    } else {
        stored_all(m.insert(stores[0].0, stores[0].1), stores.drop_first())
    }
}

/// The value of the last store under `k`, if any.
pub open spec fn last_stored<K, V>(stores: Seq<(K, V)>, k: K) -> Option<V>
    decreases stores.len(),
{
    if stores.len() == 0 {
        None
    } else {
        match last_stored(stores.drop_first(), k) {
            Some(v) => Some(v),
            None => if stores[0].0 == k {
                Some(stores[0].1)
            } else {
                None
            },
        }
    }
}

/// After any number of stores, a lookup of a key gives the value of the last store under that
/// key, and what it gave before where no store was made under it.
pub proof fn law_lookup_after_stores<K, V>(m: Map<K, V>, stores: Seq<(K, V)>, k: K)
    ensures
        match last_stored(stores, k) {
            Some(v) => stored_all(m, stores).contains_key(k) && stored_all(m, stores)[k] == v,
            None => stored_all(m, stores).contains_key(k) == m.contains_key(k) && (m.contains_key(k)
                ==> stored_all(m, stores)[k] == m[k]),
        },
    decreases stores.len(),
{
    if stores.len() > 0 {
        law_lookup_after_stores(m.insert(stores[0].0, stores[0].1), stores.drop_first(), k);
    }
}

impl RegistryKey for RepositoryReference {
    fn same_key(&self, other: &Self) -> (r: bool) {
        self.same_as(other)
    }

    fn copy_key(&self) -> (r: Self) {
        self.clone()
    }
}

impl RegistryKey for NixReference {
    fn same_key(&self, other: &Self) -> (r: bool) {
        self.same_as(other)
    }

    fn copy_key(&self) -> (r: Self) {
        self.clone()
    }
}

impl RegistryKey for AttributePath {
    fn same_key(&self, other: &Self) -> (r: bool) {
        self.same_as(other)
    }

    fn copy_key(&self) -> (r: Self) {
        self.clone()
    }
}

impl RegistryKey for (NixFileReference, EvalArgs) {
    fn same_key(&self, other: &Self) -> (r: bool) {
        self.0.same_as(&other.0) && self.1.same_as(&other.1)
    }

    fn copy_key(&self) -> (r: Self) {
        (self.0.clone(), self.1.clone())
    }
}

impl RegistryValue for bool {
    fn duplicate(&self) -> (r: Self) {
        *self
    }
}

} // verus!
