//! Aliases: names that stand for references.
use vstd::prelude::*;

use crate::error::NieError;
use crate::location::reference::{parse_reference, NixReference, NixReferenceView};
use crate::text::{
    lines, lines_of, lookup_first, split_once, split_once_char, starts_with, starts_with_str, str_eq,
};

verus! {

/// The abstract value of an alias table: names and the references they stand for, in order.
pub type AliasesView = Seq<(Seq<char>, NixReferenceView)>;

/// The table after setting `k` to stand for `v`: the first entry for `k` is replaced if there
/// is one, and an entry is appended otherwise.
pub open spec fn insert_alias(e: AliasesView, k: Seq<char>, v: NixReferenceView) -> AliasesView
    decreases e.len(),
{
    if e.len() == 0 {
        seq![(k, v)]
    } else if e[0].0 == k {
        seq![(k, v)] + e.drop_first()
    } else {
        seq![e[0]] + insert_alias(e.drop_first(), k, v)
    }
}

/// A table mapping alias names to their [`NixReference`].
#[derive(Debug)]
pub struct Aliases {
    entries: Vec<(String, NixReference)>,
}

impl View for Aliases {
    type V = AliasesView;

    closed spec fn view(&self) -> AliasesView {
        self.entries@.map_values(|e: (String, NixReference)| (e.0@, e.1@))
    }
}

impl Aliases {
    /// The empty table.
    pub fn new() -> (r: Self)
        ensures
            r@ == Seq::<(Seq<char>, NixReferenceView)>::empty(),
    {
        Aliases { entries: Vec::new() }
    }

    /// The number of aliases.
    pub fn len(&self) -> (r: usize)
        ensures
            r == self@.len(),
    {
        self.entries.len()
    }

    /// The name and reference of alias number `i`.
    pub fn entry(&self, i: usize) -> (r: (&String, &NixReference))
        requires
            i < self@.len(),
        ensures
            (r.0@, r.1@) == self@[i as int],
    {
        (&self.entries[i].0, &self.entries[i].1)
    }

    /// The reference that `name` stands for, if it is an alias.
    pub fn get(&self, name: &str) -> (r: Option<&NixReference>)
        ensures
            match r {
                Some(x) => lookup_first(self@, name@) == Some(x@),
                None => lookup_first(self@, name@) is None,
            },
    {
        let ghost e = self@;
        let mut i: usize = 0;
        assert(e.skip(0) == e);
        while i < self.entries.len()
            invariant
                e == self.entries@.map_values(|e: (String, NixReference)| (e.0@, e.1@)),
                0 <= i <= e.len(),
                lookup_first(e, name@) == lookup_first(e.skip(i as int), name@),
            decreases self.entries.len() - i,
        {
            assert(e.skip(i as int)[0] == e[i as int]);
            assert(e.skip(i as int).drop_first() == e.skip(i + 1));
            if str_eq(self.entries[i].0.as_str(), name) {
                return Some(&self.entries[i].1);
            }
            i = i + 1;
        }
        None
    }

    /// Lets `name` stand for `reference`, replacing what it stood for before.
    pub fn insert(&mut self, name: String, reference: NixReference)
        ensures
            final(self)@ == insert_alias(old(self)@, name@, reference@),
    {
        let ghost e = self@;
        let mut i: usize = 0;
        while i < self.entries.len() && !str_eq(self.entries[i].0.as_str(), name.as_str())
            invariant
                e == self.entries@.map_values(|e: (String, NixReference)| (e.0@, e.1@)),
                0 <= i <= e.len(),
                forall|j: int| 0 <= j < i ==> (#[trigger] e[j]).0 != name@,
            decreases self.entries.len() - i,
        {
            i = i + 1;
        }
        let ghost kv = (name@, reference@);
        proof {
            lemma_insert_alias_at(e, name@, reference@, i as int);
        }
        if i < self.entries.len() {
            self.entries.set(i, (name, reference));
            assert(self@ == e.update(i as int, kv));
        } else {
            self.entries.push((name, reference));
            assert(self@ == e.push(kv));
        }
    }
}

/// Setting an alias at the position of its first entry, or at the end if there is none.
proof fn lemma_insert_alias_at(e: AliasesView, k: Seq<char>, v: NixReferenceView, i: int)
    requires
        0 <= i <= e.len(),
        forall|j: int| 0 <= j < i ==> (#[trigger] e[j]).0 != k,
        i < e.len() ==> e[i].0 == k,
    ensures
        i < e.len() ==> insert_alias(e, k, v) == e.update(i, (k, v)),
        i == e.len() ==> insert_alias(e, k, v) == e.push((k, v)),
    decreases i,
{
    if i == 0 {
        if e.len() > 0 {
            assert(seq![(k, v)] + e.drop_first() == e.update(0, (k, v)));
        }
    } else {
        let t = e.drop_first();
        assert forall|j: int| 0 <= j < i - 1 implies (#[trigger] t[j]).0 != k by {
            assert(t[j] == e[j + 1]);
        }
        lemma_insert_alias_at(t, k, v, i - 1);
        if i < e.len() {
            assert(seq![e[0]] + t.update(i - 1, (k, v)) == e.update(i, (k, v)));
        } else {
            assert(seq![e[0]] + t.push((k, v)) == e.push((k, v)));
        }
    }
}

/// After setting `k`, looking up `k` gives the new reference and other names are unchanged.
pub proof fn lemma_lookup_insert_alias(
    e: AliasesView,
    k: Seq<char>,
    v: NixReferenceView,
    k2: Seq<char>,
)
    ensures
        lookup_first(insert_alias(e, k, v), k) == Some(v),
        k2 != k ==> lookup_first(insert_alias(e, k, v), k2) == lookup_first(e, k2),
    decreases e.len(),
{
    let r = insert_alias(e, k, v);
    if e.len() == 0 {
        assert(r[0] == (k, v));
        assert(r.drop_first().len() == 0);
        assert(lookup_first(r.drop_first(), k2) is None);
    } else {
        lemma_lookup_insert_alias(e.drop_first(), k, v, k2);
        if e[0].0 == k {
            assert(r[0] == (k, v));
            assert(r.drop_first() == e.drop_first());
        } else {
            assert(r[0] == e[0]);
            assert(r.drop_first() == insert_alias(e.drop_first(), k, v));
        }
    }
}

/// A line of an alias file that may define an alias: not empty, and not a comment (starting
/// with `#` or `//`).
pub open spec fn alias_line_kept(l: Seq<char>) -> bool {
    l.len() > 0 && !starts_with(l, "#"@) && !starts_with(l, "//"@)
}

/// The name and resource identifier that each kept line defines, split at its first space;
/// lines without a space define nothing.
pub open spec fn alias_pairs(ls: Seq<Seq<char>>) -> Seq<(Seq<char>, Seq<char>)>
    decreases ls.len(),
{
    if ls.len() == 0 {
        Seq::empty()
    } else {
        (if alias_line_kept(ls[0]) && split_once(ls[0], ' ') is Some {
            seq![split_once(ls[0], ' ').unwrap()]
        } else {
            Seq::empty()
        }) + alias_pairs(ls.drop_first())
    }
}

/// The name and resource identifier pairs that an alias file defines, in order.
pub open spec fn alias_file_pairs(contents: Seq<char>) -> Seq<(Seq<char>, Seq<char>)> {
    alias_pairs(lines(contents))
}

/// The table after letting each name stand for its reference, in order.
pub open spec fn insert_aliases(e: AliasesView, pairs: Seq<(Seq<char>, NixReferenceView)>) -> AliasesView
    decreases pairs.len(),
{
    if pairs.len() == 0 {
        e
    } else {
        insert_aliases(insert_alias(e, pairs[0].0, pairs[0].1), pairs.drop_first())
    }
}

/// The reference of the last pair named `k`, if any.
pub open spec fn last_definition(pairs: Seq<(Seq<char>, NixReferenceView)>, k: Seq<char>) -> Option<
    NixReferenceView,
>
    decreases pairs.len(),
{
    if pairs.len() == 0 {
        None
    } else {
        match last_definition(pairs.drop_first(), k) {
            Some(v) => Some(v),
            None => if pairs[0].0 == k {
                Some(pairs[0].1)
            } else {
                None
            },
        }
    }
}

/// After letting names stand for references in order, a name stands for the reference of its
/// last definition, and a name that was not defined keeps what it stood for.
pub proof fn law_later_aliases_win(e: AliasesView, pairs: Seq<(Seq<char>, NixReferenceView)>, k: Seq<char>)
    ensures
        lookup_first(insert_aliases(e, pairs), k) == match last_definition(pairs, k) {
            Some(v) => Some(v),
            None => lookup_first(e, k),
        },
    decreases pairs.len(),
{
    if pairs.len() > 0 {
        let e1 = insert_alias(e, pairs[0].0, pairs[0].1);
        law_later_aliases_win(e1, pairs.drop_first(), k);
        lemma_lookup_insert_alias(e, pairs[0].0, pairs[0].1, k);
    }
}

/// The aliases that an alias file defines (see [`alias_file_pairs`]), each resource identifier
/// read without aliases; the file system tells whether an unprefixed identifier names a local
/// directory. The first identifier that cannot be read is the error.
pub fn parse_alias_file(contents: &str) -> (r: Result<Vec<(String, NixReference)>, NieError>)
    ensures
        match r {
            Ok(v) => v@.len() == alias_file_pairs(contents@).len() && forall|i: int|
                0 <= i < v@.len() ==> #[trigger] v@[i].0@ == alias_file_pairs(contents@)[i].0
                    && exists|ld: bool|
                    #![trigger parse_reference(alias_file_pairs(contents@)[i].1, Seq::empty(), ld)]
                    parse_reference(alias_file_pairs(contents@)[i].1, Seq::empty(), ld) == Some(
                        v@[i].1@,
                    ),
            Err(e) => exists|i: int|
                #![trigger alias_file_pairs(contents@)[i]]
                0 <= i < alias_file_pairs(contents@).len() && (e matches NieError::InvalidLocationSpec(
                    m,
                ) && m@ == alias_file_pairs(contents@)[i].1) && exists|ld: bool|
                    #![trigger parse_reference(alias_file_pairs(contents@)[i].1, Seq::empty(), ld)]
                    parse_reference(alias_file_pairs(contents@)[i].1, Seq::empty(), ld) is None,
        },
{
    let ls = lines_of(contents);
    let ghost lv = ls@.map_values(|l: String| l@);
    let ghost all = alias_file_pairs(contents@);
    let none = Aliases::new();
    let mut out: Vec<(String, NixReference)> = Vec::new();
    let ghost mut done: Seq<(Seq<char>, Seq<char>)> = Seq::empty();
    let mut i: usize = 0;
    assert(lv.skip(0) == lv);
    proof {
        reveal_strlit("#");
        reveal_strlit("//");
    }
    while i < ls.len()
        invariant
            lv == ls@.map_values(|l: String| l@),
            lv == lines(contents@),
            all == alias_pairs(lv),
            none@ == Seq::<(Seq<char>, NixReferenceView)>::empty(),
            0 <= i <= lv.len(),
            all == done + alias_pairs(lv.skip(i as int)),
            out@.len() == done.len(),
            forall|j: int|
                0 <= j < out@.len() ==> #[trigger] out@[j].0@ == done[j].0 && exists|ld: bool|
                    #![trigger parse_reference(done[j].1, Seq::empty(), ld)]
                    parse_reference(done[j].1, Seq::empty(), ld) == Some(out@[j].1@),
            "#"@ == seq!['#'],
            "//"@ == seq!['/', '/'],
        decreases ls.len() - i,
    {
        assert(lv.skip(i as int)[0] == lv[i as int]);
        assert(lv.skip(i as int).drop_first() == lv.skip(i + 1));
        let l = ls[i].as_str();
        assert(lv[i as int] == l@);
        let kept = crate::text::chars_of(l).len() > 0 && !starts_with_str(l, "#") && !starts_with_str(l, "//");
        assert(kept == alias_line_kept(lv[i as int]));
        let ghost rest = alias_pairs(lv.skip(i + 1));
        if kept {
            match split_once_char(l, ' ') {
                Some((k, v)) => {
                    let ghost kv = (k@, v@);
                    match NixReference::from_str(v.as_str(), &none) {
                        Ok(x) => {
                            let ghost old_done = done;
                            let ghost ld0 = choose|ld: bool| parse_reference(v@, none@, ld) == Some(x@);
                            assert(parse_reference(kv.1, Seq::empty(), ld0) == Some(x@));
                            out.push((k, x));
                            proof {
                                done = done.push(kv);
                                assert(old_done + (seq![kv] + rest) == done + rest);
                                assert forall|j: int| 0 <= j < out@.len() implies #[trigger] out@[j].0@
                                    == done[j].0 && exists|ld: bool|
                                    #![trigger parse_reference(done[j].1, Seq::empty(), ld)]
                                    parse_reference(done[j].1, Seq::empty(), ld) == Some(out@[j].1@) by {
                                    if j < old_done.len() {
                                        assert(done[j] == old_done[j]);
                                    } else {
                                        assert(parse_reference(done[j].1, Seq::empty(), ld0) == Some(
                                            out@[j].1@,
                                        ));
                                    }
                                }
                            }
                        },
                        Err(e) => {
                            proof {
                                let idx = done.len() as int;
                                assert(all[idx] == kv);
                                let ld0 = choose|ld: bool|
                                    parse_reference(v@, none@, ld) is None && (e matches NieError::InvalidLocationSpec(
                                        m,
                                    ) && m@ == v@);
                                assert(parse_reference(all[idx].1, Seq::empty(), ld0) is None);
                                assert(alias_file_pairs(contents@)[idx] == kv);
                                assert(0 <= idx < alias_file_pairs(contents@).len());
                            }
                            return Err(e);
                        },
                    }
                },
                None => {
                    assert(Seq::<(Seq<char>, Seq<char>)>::empty() + rest == rest);
                },
            }
        } else {
            assert(Seq::<(Seq<char>, Seq<char>)>::empty() + rest == rest);
        }
        i = i + 1;
    }
    assert(lv.skip(i as int).len() == 0);
    assert(done + Seq::<(Seq<char>, Seq<char>)>::empty() == done);
    Ok(out)
}

impl Aliases {
    /// Lets each name stand for its reference, in order (see [`insert_aliases`]).
    pub fn extend(&mut self, pairs: Vec<(String, NixReference)>)
        ensures
            final(self)@ == insert_aliases(old(self)@, pairs@.map_values(|p: (String, NixReference)| (p.0@, p.1@))),
    {
        let ghost pv = pairs@.map_values(|p: (String, NixReference)| (p.0@, p.1@));
        let ghost goal = insert_aliases(self@, pv);
        let total = pairs.len();
        let mut rest = pairs;
        assert(pv.skip(0) == pv);
        let mut k: usize = 0;
        while rest.len() > 0
            invariant
                k + rest@.len() == pv.len(),
                pv.len() == total,
                forall|j: int| 0 <= j < rest@.len() ==> (#[trigger] rest@[j].0@, rest@[j].1@) == pv[k + j],
                goal == insert_aliases(self@, pv.skip(k as int)),
            decreases rest.len(),
        {
            let (name, reference) = rest.remove(0);
            assert(pv.skip(k as int)[0] == pv[k as int]);
            assert(pv.skip(k as int).drop_first() == pv.skip(k + 1));
            self.insert(name, reference);
            k = k + 1;
        }
        assert(pv.skip(k as int).len() == 0);
    }
}

/// The name and resource identifier pairs that the alias files `ts` define, file by file in
/// order (see [`alias_file_pairs`]).
pub open spec fn texts_alias_pairs(ts: Seq<Seq<char>>) -> Seq<(Seq<char>, Seq<char>)>
    decreases ts.len(),
{
    if ts.len() == 0 {
        Seq::empty()
    } else {
        texts_alias_pairs(ts.drop_last()) + alias_file_pairs(ts.last())
    }
}

/// Whether the resource identifier `id` reads as `r` without aliases, whatever the file system
/// said of an unprefixed identifier.
pub open spec fn reads_as(id: Seq<char>, r: NixReferenceView) -> bool {
    exists|ld: bool| #[trigger] parse_reference(id, Seq::empty(), ld) == Some(r)
}

/// Whether `refs` are what the resource identifiers of `pairs` read as (see [`reads_as`]).
pub open spec fn read_as(pairs: Seq<(Seq<char>, Seq<char>)>, refs: Seq<NixReferenceView>) -> bool {
    &&& refs.len() == pairs.len()
    &&& forall|i: int| 0 <= i < pairs.len() ==> #[trigger] reads_as(pairs[i].1, refs[i])
}

/// Each name of `pairs` with the reference of the same position.
pub open spec fn named_references(pairs: Seq<(Seq<char>, Seq<char>)>, refs: Seq<NixReferenceView>) -> AliasesView {
    Seq::new(pairs.len(), |i: int| (pairs[i].0, refs[i]))
}

/// The abstract values of a list of texts.
pub open spec fn texts_of(ts: Seq<String>) -> Seq<Seq<char>> {
    ts.map_values(|t: String| t@)
}

proof fn lemma_insert_aliases_concat(e: AliasesView, p: AliasesView, q: AliasesView)
    ensures
        insert_aliases(e, p + q) == insert_aliases(insert_aliases(e, p), q),
    decreases p.len(),
{
    if p.len() > 0 {
        assert((p + q).drop_first() == p.drop_first() + q);
        assert((p + q)[0] == p[0]);
        lemma_insert_aliases_concat(insert_alias(e, p[0].0, p[0].1), p.drop_first(), q);
    } else {
        assert(p + q == q);
    }
}

proof fn lemma_read_as_concat(
    p: Seq<(Seq<char>, Seq<char>)>,
    r: Seq<NixReferenceView>,
    q: Seq<(Seq<char>, Seq<char>)>,
    t: Seq<NixReferenceView>,
)
    requires
        read_as(p, r),
        read_as(q, t),
    ensures
        read_as(p + q, r + t),
{
    assert forall|k: int| 0 <= k < (p + q).len() implies #[trigger] reads_as((p + q)[k].1, (r + t)[k]) by {
        if k < p.len() {
            assert((p + q)[k] == p[k]);
            assert((r + t)[k] == r[k]);
            assert(reads_as(p[k].1, r[k]));
        } else {
            assert((p + q)[k] == q[k - p.len()]);
            assert((r + t)[k] == t[k - p.len()]);
            assert(reads_as(q[k - p.len()].1, t[k - p.len()]));
        }
    }
    assert((r + t).len() == (p + q).len());
}

/// Loads the aliases of the alias files whose contents are `texts`, in order, into `cache`,
/// unless they were loaded before. Loaded, every alias stands for its resource identifier read
/// without aliases, a later definition of a name winning (see [`law_later_aliases_win`]). An
/// identifier that cannot be read is the error, and nothing is loaded.
pub fn load_aliases(cache: &mut Option<Aliases>, texts: &[String]) -> (r: Result<(), NieError>)
    ensures
        *old(cache) is Some ==> r is Ok && *final(cache) == *old(cache),
        *old(cache) is None && r is Ok ==> (*final(cache) matches Some(a) && exists|refs: Seq<NixReferenceView>|
            #![trigger named_references(texts_alias_pairs(texts_of(texts@)), refs)]
            read_as(texts_alias_pairs(texts_of(texts@)), refs) && a@ == insert_aliases(
                Seq::empty(),
                named_references(texts_alias_pairs(texts_of(texts@)), refs),
            )),
        *old(cache) is None && r is Err ==> *final(cache) is None,
        *old(cache) is None ==> (r matches Err(e) ==> (e matches NieError::InvalidLocationSpec(m) && exists|
            i: int,
            j: int,
        |
            #![trigger alias_file_pairs(texts_of(texts@)[i])[j]]
            0 <= i < texts@.len() && 0 <= j < alias_file_pairs(texts_of(texts@)[i]).len() && m@
                == alias_file_pairs(texts_of(texts@)[i])[j].1 && exists|ld: bool|
                #![trigger parse_reference(alias_file_pairs(texts_of(texts@)[i])[j].1, Seq::empty(), ld)]
                parse_reference(alias_file_pairs(texts_of(texts@)[i])[j].1, Seq::empty(), ld) is None)),
{
    if cache.is_some() {
        return Ok(());
    }
    let ghost tv = texts_of(texts@);
    let mut aliases = Aliases::new();
    let ghost mut refs: Seq<NixReferenceView> = Seq::empty();
    let mut i: usize = 0;
    while i < texts.len()
        invariant
            tv == texts_of(texts@),
            *old(cache) is None,
            *cache == *old(cache),
            0 <= i <= texts@.len(),
            read_as(texts_alias_pairs(tv.take(i as int)), refs),
            aliases@ == insert_aliases(Seq::empty(), named_references(texts_alias_pairs(tv.take(i as int)), refs)),
        decreases texts.len() - i,
    {
        let ghost before = texts_alias_pairs(tv.take(i as int));
        let ghost file = alias_file_pairs(tv[i as int]);
        assert(tv.take(i + 1).drop_last() == tv.take(i as int));
        assert(tv.take(i + 1).last() == tv[i as int]);
        assert(texts_alias_pairs(tv.take(i + 1)) == before + file);
        assert(texts[i as int]@ == tv[i as int]);
        match parse_alias_file(texts[i].as_str()) {
            Ok(pairs) => {
                let ghost pv = pairs@.map_values(|p: (String, NixReference)| (p.0@, p.1@));
                let ghost new_refs = pairs@.map_values(|p: (String, NixReference)| p.1@);
                proof {
                    assert(named_references(file, new_refs) =~= pv);
                    assert(named_references(before + file, refs + new_refs) =~= named_references(before, refs)
                        + pv);
                    lemma_insert_aliases_concat(Seq::empty(), named_references(before, refs), pv);
                    assert forall|k: int| 0 <= k < file.len() implies #[trigger] reads_as(file[k].1, new_refs[k]) by {
                        assert(pairs@[k].0@ == file[k].0);
                        assert(pairs@[k].1@ == new_refs[k]);
                    }
                    assert(read_as(file, new_refs));
                    lemma_read_as_concat(before, refs, file, new_refs);
                }
                aliases.extend(pairs);
                proof {
                    refs = refs + new_refs;
                }
            },
            Err(e) => {
                return Err(e);
            },
        }
        i = i + 1;
    }
    assert(tv.take(i as int) == tv);
    *cache = Some(aliases);
    Ok(())
}

} // verus!
