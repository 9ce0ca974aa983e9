//! Additional arguments used to fetch a repository: a map from argument names to values that
//! keeps its entries ordered by name.
use vstd::prelude::*;

use crate::text::{compare_str, lemma_str_less_transitive, lemma_str_less_trichotomy, str_eq, str_less, Cmp};

verus! {

/// The keys of the entries are strictly increasing.
pub open spec fn keys_sorted(e: Seq<(Seq<char>, Seq<char>)>) -> bool {
    forall|i: int, j: int| 0 <= i < j < e.len() ==> str_less(e[i].0, e[j].0)
}

/// The entries after setting `k` to `v`: the entry for `k` is replaced if there is one, and a
/// new entry is placed before the first larger key otherwise.
pub open spec fn insert_entry(e: Seq<(Seq<char>, Seq<char>)>, k: Seq<char>, v: Seq<char>) -> Seq<
    (Seq<char>, Seq<char>),
>
    decreases e.len(),
{
    if e.len() == 0 {
        seq![(k, v)]
    } else if e[0].0 == k {
        seq![(k, v)] + e.drop_first()
    } else if str_less(k, e[0].0) {
        seq![(k, v)] + e
    } else {
        seq![e[0]] + insert_entry(e.drop_first(), k, v)
    }
}

/// The value of the entry for `k`, if any.
pub open spec fn lookup_entry(e: Seq<(Seq<char>, Seq<char>)>, k: Seq<char>) -> Option<Seq<char>>
    decreases e.len(),
{
    if e.len() == 0 {
        None
    } else if e[0].0 == k {
        Some(e[0].1)
    } else {
        lookup_entry(e.drop_first(), k)
    }
}

/// The abstract value of a list of string pairs.
pub open spec fn pairs_view(v: Seq<(String, String)>) -> Seq<(Seq<char>, Seq<char>)> {
    v.map_values(|e: (String, String)| (e.0@, e.1@))
}

/// Argument names and values, ordered by name, each name at most once.
#[derive(Debug, PartialEq, Eq, Hash)]
pub struct FetchArgs {
    entries: Vec<(String, String)>,
}

impl View for FetchArgs {
    type V = Seq<(Seq<char>, Seq<char>)>;

    closed spec fn view(&self) -> Seq<(Seq<char>, Seq<char>)> {
        pairs_view(self.entries@)
    }
}

/// Inserting at the position found by a scan: before it all keys are smaller, at it the key is
/// not smaller.
proof fn lemma_insert_at(e: Seq<(Seq<char>, Seq<char>)>, k: Seq<char>, v: Seq<char>, i: int)
    requires
        0 <= i <= e.len(),
        forall|j: int| 0 <= j < i ==> str_less(#[trigger] e[j].0, k),
        i < e.len() ==> !str_less(e[i].0, k),
    ensures
        i < e.len() && e[i].0 == k ==> insert_entry(e, k, v) == e.take(i) + seq![(k, v)] + e.skip(
            i + 1,
        ),
        !(i < e.len() && e[i].0 == k) ==> insert_entry(e, k, v) == e.take(i) + seq![(k, v)]
            + e.skip(i),
    decreases i,
{
    if i == 0 {
        assert(e.take(0) + seq![(k, v)] == seq![(k, v)]);
        if e.len() > 0 {
            lemma_str_less_trichotomy(k, e[0].0);
            assert(e.skip(1) == e.drop_first());
            assert(e.skip(0) == e);
        } else {
            assert(e.skip(0) == e);
        }
    } else {
        lemma_str_less_trichotomy(k, e[0].0);
        assert(e[0].0 != k);
        assert(!str_less(k, e[0].0));
        let t = e.drop_first();
        assert forall|j: int| 0 <= j < i - 1 implies str_less(#[trigger] t[j].0, k) by {
            assert(t[j] == e[j + 1]);
        }
        lemma_insert_at(t, k, v, i - 1);
        assert(seq![e[0]] + t.take(i - 1) == e.take(i));
        assert(t.skip(i - 1) == e.skip(i));
        if i < e.len() {
            assert(t.skip(i) == e.skip(i + 1));
            assert(seq![e[0]] + (t.take(i - 1) + seq![(k, v)] + t.skip(i)) == e.take(i) + seq![
                (k, v),
            ] + e.skip(i + 1));
        }
        assert(seq![e[0]] + (t.take(i - 1) + seq![(k, v)] + t.skip(i - 1)) == e.take(i) + seq![
            (k, v),
        ] + e.skip(i));
    }
}

/// Setting a key keeps the keys sorted.
pub proof fn lemma_insert_sorted(e: Seq<(Seq<char>, Seq<char>)>, k: Seq<char>, v: Seq<char>)
    requires
        keys_sorted(e),
    ensures
        keys_sorted(insert_entry(e, k, v)),
    decreases e.len(),
{
    if e.len() > 0 {
        let t = e.drop_first();
        assert forall|i: int, j: int| 0 <= i < j < t.len() implies str_less(t[i].0, t[j].0) by {
            assert(t[i] == e[i + 1] && t[j] == e[j + 1]);
        }
        let r = insert_entry(e, k, v);
        if e[0].0 == k {
            assert forall|i: int, j: int| 0 <= i < j < r.len() implies str_less(r[i].0, r[j].0) by {
                assert(r[j] == e[j]);
                if i > 0 {
                    assert(r[i] == e[i]);
                }
            }
        } else if str_less(k, e[0].0) {
            assert forall|i: int, j: int| 0 <= i < j < r.len() implies str_less(r[i].0, r[j].0) by {
                assert(r[j] == e[j - 1]);
                if i > 0 {
                    assert(r[i] == e[i - 1]);
                } else if j > 1 {
                    lemma_str_less_transitive(k, e[0].0, e[j - 1].0);
                }
            }
        } else {
            lemma_insert_sorted(t, k, v);
            lemma_insert_keys(t, k, v);
            lemma_str_less_trichotomy(k, e[0].0);
            let rt = insert_entry(t, k, v);
            assert forall|i: int, j: int| 0 <= i < j < r.len() implies str_less(r[i].0, r[j].0) by {
                assert(r[j] == rt[j - 1]);
                if i > 0 {
                    assert(r[i] == rt[i - 1]);
                } else {
                    assert(r[0] == e[0]);
                    let x = rt[j - 1].0;
                    if x != k {
                        let m = choose|m: int| 0 <= m < t.len() && t[m].0 == x;
                        assert(t[m] == e[m + 1]);
                    }
                }
            }
        }
    }
}

/// The keys after setting `k` are those before and `k`.
proof fn lemma_insert_keys(e: Seq<(Seq<char>, Seq<char>)>, k: Seq<char>, v: Seq<char>)
    ensures
        forall|i: int|
            0 <= i < insert_entry(e, k, v).len() ==> #[trigger] insert_entry(e, k, v)[i].0 == k
                || exists|m: int| 0 <= m < e.len() && e[m].0 == insert_entry(e, k, v)[i].0,
    decreases e.len(),
{
    if e.len() > 0 {
        let t = e.drop_first();
        lemma_insert_keys(t, k, v);
        let r = insert_entry(e, k, v);
        assert forall|i: int| 0 <= i < r.len() implies #[trigger] r[i].0 == k || exists|m: int|
            0 <= m < e.len() && e[m].0 == r[i].0 by {
            if e[0].0 == k {
                if i > 0 {
                    assert(r[i] == e[i]);
                }
            } else if str_less(k, e[0].0) {
                if i > 0 {
                    assert(r[i] == e[i - 1]);
                }
            } else {
                if i == 0 {
                    assert(r[0] == e[0]);
                } else {
                    let rt = insert_entry(t, k, v);
                    assert(r[i] == rt[i - 1]);
                    if rt[i - 1].0 != k {
                        let m = choose|m: int| 0 <= m < t.len() && t[m].0 == rt[i - 1].0;
                        assert(t[m] == e[m + 1]);
                    }
                }
            }
        }
    }
}

/// After setting `k` to `v`, looking up `k` gives `v` and every other key is unchanged.
pub proof fn lemma_lookup_insert(
    e: Seq<(Seq<char>, Seq<char>)>,
    k: Seq<char>,
    v: Seq<char>,
    k2: Seq<char>,
)
    ensures
        lookup_entry(insert_entry(e, k, v), k) == Some(v),
        k2 != k ==> lookup_entry(insert_entry(e, k, v), k2) == lookup_entry(e, k2),
    decreases e.len(),
{
    let r = insert_entry(e, k, v);
    if e.len() == 0 {
        assert(r == seq![(k, v)]);
        assert(r[0] == (k, v));
        assert(r.drop_first().len() == 0);
        assert(lookup_entry(r.drop_first(), k2) is None);
    } else {
        lemma_lookup_insert(e.drop_first(), k, v, k2);
        if e[0].0 == k {
            assert(r[0] == (k, v));
            assert(r.drop_first() == e.drop_first());
        } else if str_less(k, e[0].0) {
            assert(r[0] == (k, v));
            assert(r.drop_first() == e);
        } else {
            assert(r[0] == e[0]);
            assert(r.drop_first() == insert_entry(e.drop_first(), k, v));
        }
    }
}

/// Setting a key larger than all present appends an entry.
pub proof fn lemma_insert_largest(e: Seq<(Seq<char>, Seq<char>)>, k: Seq<char>, v: Seq<char>)
    requires
        forall|i: int| 0 <= i < e.len() ==> str_less(#[trigger] e[i].0, k),
    ensures
        insert_entry(e, k, v) == e.push((k, v)),
    decreases e.len(),
{
    if e.len() == 0 {
    } else {
        lemma_str_less_trichotomy(k, e[0].0);
        let t = e.drop_first();
        assert forall|i: int| 0 <= i < t.len() implies str_less(#[trigger] t[i].0, k) by {
            assert(t[i] == e[i + 1]);
        }
        lemma_insert_largest(t, k, v);
        assert(seq![e[0]] + t.push((k, v)) == e.push((k, v)));
    }
}

impl FetchArgs {
    #[verifier::type_invariant]
    spec fn sorted(self) -> bool {
        keys_sorted(pairs_view(self.entries@))
    }

    /// No arguments.
    pub fn new() -> (r: Self)
        ensures
            r@ == Seq::<(Seq<char>, Seq<char>)>::empty(),
    {
        FetchArgs { entries: Vec::new() }
    }

    /// The entries, ordered by name; names are strictly increasing.
    pub fn entries(&self) -> (r: &Vec<(String, String)>)
        ensures
            pairs_view(r@) == self@,
            keys_sorted(self@),
    {
        proof {
            use_type_invariant(self);
        }
        &self.entries
    }

    /// Whether `self` and `other` hold the same arguments.
    pub fn same_as(&self, other: &Self) -> (r: bool)
        ensures
            r == (self@ == other@),
    {
        let a = &self.entries;
        let b = &other.entries;
        if a.len() != b.len() {
            return false;
        }
        let mut i: usize = 0;
        while i < a.len()
            invariant
                a@.len() == b@.len(),
                a == self.entries,
                b == other.entries,
                0 <= i <= a@.len(),
                forall|j: int| 0 <= j < i ==> pairs_view(a@)[j] == pairs_view(b@)[j],
            decreases a.len() - i,
        {
            if !str_eq(a[i].0.as_str(), b[i].0.as_str()) || !str_eq(a[i].1.as_str(), b[i].1.as_str()) {
                assert(pairs_view(a@)[i as int] != pairs_view(b@)[i as int]);
                return false;
            }
            i = i + 1;
        }
        assert(pairs_view(a@) == pairs_view(b@));
        true
    }

    /// The number of arguments.
    pub fn len(&self) -> (r: usize)
        ensures
            r == self@.len(),
    {
        self.entries.len()
    }

    /// The value of argument `key`, if present.
    pub fn get(&self, key: &str) -> (r: Option<&String>)
        ensures
            match r {
                Some(v) => lookup_entry(self@, key@) == Some(v@),
                None => lookup_entry(self@, key@) is None,
            },
    {
        let ghost e = self@;
        let mut i: usize = 0;
        assert(e.skip(0) == e);
        while i < self.entries.len()
            invariant
                e == pairs_view(self.entries@),
                0 <= i <= e.len(),
                lookup_entry(e, key@) == lookup_entry(e.skip(i as int), key@),
            decreases self.entries.len() - i,
        {
            assert(e.skip(i as int)[0] == e[i as int]);
            assert(e.skip(i as int).drop_first() == e.skip(i + 1));
            if str_eq(self.entries[i].0.as_str(), key) {
                return Some(&self.entries[i].1);
            }
            i = i + 1;
        }
        None
    }

    /// Sets argument `key` to `value`, replacing a previous value.
    pub fn insert(&mut self, key: String, value: String)
        ensures
            final(self)@ == insert_entry(old(self)@, key@, value@),
    {
        proof {
            use_type_invariant(&*self);
        }
        let ghost e = self@;
        let mut i: usize = 0;
        while i < self.entries.len() && compare_str(self.entries[i].0.as_str(), key.as_str())
            == Cmp::Less
            invariant
                e == pairs_view(self.entries@),
                0 <= i <= e.len(),
                forall|j: int| 0 <= j < i ==> str_less(#[trigger] e[j].0, key@),
            decreases self.entries.len() - i,
        {
            i = i + 1;
        }
        proof {
            lemma_insert_at(e, key@, value@, i as int);
            lemma_insert_sorted(e, key@, value@);
        }
        let mut entries = copy_pairs(&self.entries);
        if i < entries.len() && str_eq(entries[i].0.as_str(), key.as_str()) {
            let ghost kv = (key@, value@);
            entries.set(i, (key, value));
            assert(pairs_view(entries@) == e.take(i as int) + seq![kv] + e.skip(i + 1));
        } else {
            let ghost kv = (key@, value@);
            entries.insert(i, (key, value));
            assert(pairs_view(entries@) == e.take(i as int) + seq![kv] + e.skip(i as int));
        }
        self.entries = entries;
    }
}

/// A copy of a list of string pairs.
pub fn copy_pairs(v: &Vec<(String, String)>) -> (r: Vec<(String, String)>)
    ensures
        pairs_view(r@) == pairs_view(v@),
{
    let mut entries: Vec<(String, String)> = Vec::new();
    let mut i: usize = 0;
    while i < v.len()
        invariant
            0 <= i <= v@.len(),
            pairs_view(entries@) == pairs_view(v@).take(i as int),
        decreases v.len() - i,
    {
        let ghost before = pairs_view(entries@);
        let k = v[i].0.clone();
        let x = v[i].1.clone();
        entries.push((k, x));
        assert(pairs_view(entries@) == before.push(pairs_view(v@)[i as int]));
        assert(pairs_view(v@).take(i + 1) == pairs_view(v@).take(i as int).push(
            pairs_view(v@)[i as int],
        ));
        i = i + 1;
    }
    assert(pairs_view(v@).take(v@.len() as int) == pairs_view(v@));
    entries
}

impl Clone for FetchArgs {
    fn clone(&self) -> (r: Self)
        ensures
            r@ == self@,
    {
        proof {
            use_type_invariant(self);
        }
        FetchArgs { entries: copy_pairs(&self.entries) }
    }
}

} // verus!
