//! Arguments that control how Nix expressions are evaluated.
use vstd::prelude::*;

use crate::location::attribute_path::{clone_strings, strings_same, strings_view};
use crate::text::{concat, lemma_concat_push, lookup_first, owned, push_str, str_eq};

verus! {

broadcast use vstd::seq_lib::group_seq_properties;

/// The abstract value of lists of lists of strings.
pub open spec fn nested_view(v: Seq<Vec<String>>) -> Seq<Seq<Seq<char>>> {
    v.map_values(|x: Vec<String>| strings_view(x@))
}

/// The abstract value of an optional optional string.
pub open spec fn system_view(s: Option<Option<String>>) -> Option<Option<Seq<char>>> {
    match s {
        Some(Some(x)) => Some(Some(x@)),
        Some(None) => Some(None),
        None => None,
    }
}

/// The abstract value of [`EvalArgs`].
pub struct EvalArgsView {
    pub flake_compat: bool,
    pub nix_options: Seq<Seq<Seq<char>>>,
    pub is_lambda: bool,
    pub add_eval_args: Seq<Seq<Seq<char>>>,
    pub system: Option<Option<Seq<char>>>,
}

/// The first two strings of each list that has at least two, as pairs, in order.
pub open spec fn leading_pairs(vv: Seq<Seq<Seq<char>>>) -> Seq<(Seq<char>, Seq<char>)>
    decreases vv.len(),
{
    if vv.len() == 0 {
        Seq::empty()
    } else if vv[0].len() >= 2 {
        seq![(vv[0][0], vv[0][1])] + leading_pairs(vv.drop_first())
    } else {
        leading_pairs(vv.drop_first())
    }
}

/// The association list after binding `k` to `v`: the first entry for `k` is replaced if there
/// is one, an entry is appended otherwise.
pub open spec fn assoc_insert(e: Seq<(Seq<char>, Seq<char>)>, k: Seq<char>, v: Seq<char>) -> Seq<
    (Seq<char>, Seq<char>),
>
    decreases e.len(),
{
    if e.len() == 0 {
        seq![(k, v)]
    } else if e[0].0 == k {
        seq![(k, v)] + e.drop_first()
    } else {
        seq![e[0]] + assoc_insert(e.drop_first(), k, v)
    }
}

/// The association list built by binding the pairs in order (later bindings win).
pub open spec fn assoc_from(pairs: Seq<(Seq<char>, Seq<char>)>) -> Seq<(Seq<char>, Seq<char>)>
    decreases pairs.len(),
{
    if pairs.len() == 0 {
        Seq::empty()
    } else {
        assoc_insert(assoc_from(pairs.drop_last()), pairs.last().0, pairs.last().1)
    }
}

/// The bindings passed to a toplevel lambda: the expression arguments, later ones winning, and
/// `system` bound to the quoted system name when one is requested (`system` given without a
/// value requests the current system).
pub open spec fn expression_bindings(a: EvalArgsView, current_system: Option<Seq<char>>) -> Seq<
    (Seq<char>, Seq<char>),
> {
    let base = assoc_from(leading_pairs(a.add_eval_args));
    match a.system {
        Some(Some(s)) => assoc_insert(base, "system"@, seq!['"'] + s + seq!['"']),
        Some(None) => assoc_insert(base, "system"@, seq!['"'] + current_system.unwrap() + seq!['"']),
        None => base,
    }
}

/// `key = value; ` for each binding.
pub open spec fn bindings_text(e: Seq<(Seq<char>, Seq<char>)>) -> Seq<char> {
    concat(e.map_values(|kv: (Seq<char>, Seq<char>)| kv.0 + " = "@ + kv.1 + "; "@))
}

/// The argument set passed to a toplevel lambda, empty if the expression is no lambda.
pub open spec fn expression_args_text(a: EvalArgsView, current_system: Option<Seq<char>>) -> Seq<
    char,
> {
    if !a.is_lambda {
        Seq::empty()
    } else {
        "{ "@ + bindings_text(expression_bindings(a, current_system)) + "} "@
    }
}

/// Options for evaluating and building Nix expressions.
#[derive(Debug, PartialEq, Eq, Hash)]
pub struct EvalArgs {
    /// Enable Flake compatibility
    pub flake_compat: bool,
    /// Additional options for the nix builder (see nix-build(1)), each a name and a value
    pub nix_options: Vec<Vec<String>>,
    /// `true` if the targeted expression is a lambda at the toplevel
    pub is_lambda: bool,
    /// Additional arguments to pass to the expression at the toplevel, each a name and a value
    pub add_eval_args: Vec<Vec<String>>,
    /// Pass 'system' argument to the expression: `Some(None)` passes the current system
    pub system: Option<Option<String>>,
}

impl View for EvalArgs {
    type V = EvalArgsView;

    open spec fn view(&self) -> EvalArgsView {
        EvalArgsView {
            flake_compat: self.flake_compat,
            nix_options: nested_view(self.nix_options@),
            is_lambda: self.is_lambda,
            add_eval_args: nested_view(self.add_eval_args@),
            system: system_view(self.system),
        }
    }
}

/// Whether two lists of lists of strings are equal.
fn nested_same(a: &Vec<Vec<String>>, b: &Vec<Vec<String>>) -> (r: bool)
    ensures
        r == (nested_view(a@) == nested_view(b@)),
{
    if a.len() != b.len() {
        return false;
    }
    let mut i: usize = 0;
    while i < a.len()
        invariant
            a@.len() == b@.len(),
            0 <= i <= a@.len(),
            forall|j: int| 0 <= j < i ==> nested_view(a@)[j] == nested_view(b@)[j],
        decreases a.len() - i,
    {
        if !strings_same(&a[i], &b[i]) {
            assert(nested_view(a@)[i as int] != nested_view(b@)[i as int]);
            return false;
        }
        i = i + 1;
    }
    assert(nested_view(a@) == nested_view(b@));
    true
}

/// A copy of a list of lists of strings.
fn clone_nested(v: &Vec<Vec<String>>) -> (r: Vec<Vec<String>>)
    ensures
        nested_view(r@) == nested_view(v@),
{
    let mut r: Vec<Vec<String>> = Vec::new();
    let mut i: usize = 0;
    while i < v.len()
        invariant
            0 <= i <= v@.len(),
            nested_view(r@) == nested_view(v@).take(i as int),
        decreases v.len() - i,
    {
        let ghost before = nested_view(r@);
        r.push(clone_strings(&v[i]));
        assert(nested_view(r@) == before.push(nested_view(v@)[i as int]));
        assert(nested_view(v@).take(i + 1) == nested_view(v@).take(i as int).push(
            nested_view(v@)[i as int],
        ));
        i = i + 1;
    }
    assert(nested_view(v@).take(v@.len() as int) == nested_view(v@));
    r
}

/// The leading pairs of a list of lists (see [`leading_pairs`]).
fn pairs_of(v: &Vec<Vec<String>>) -> (r: Vec<(&str, &str)>)
    ensures
        r@.map_values(|p: (&str, &str)| (p.0@, p.1@)) == leading_pairs(nested_view(v@)),
{
    let ghost all = nested_view(v@);
    let mut r: Vec<(&str, &str)> = Vec::new();
    let mut i: usize = 0;
    assert(all.skip(0) == all);
    while i < v.len()
        invariant
            all == nested_view(v@),
            0 <= i <= v@.len(),
            leading_pairs(all) == r@.map_values(|p: (&str, &str)| (p.0@, p.1@)) + leading_pairs(
                all.skip(i as int),
            ),
        decreases v.len() - i,
    {
        let ghost before = r@.map_values(|p: (&str, &str)| (p.0@, p.1@));
        assert(all.skip(i as int)[0] == all[i as int]);
        assert(all.skip(i as int).drop_first() == all.skip(i + 1));
        assert(all[i as int] == strings_view(v@[i as int]@));
        if v[i].len() >= 2 {
            let p: (&str, &str) = (v[i][0].as_str(), v[i][1].as_str());
            r.push(p);
            assert(r@.map_values(|p: (&str, &str)| (p.0@, p.1@)) == before.push((p.0@, p.1@)));
            assert(before + (seq![(p.0@, p.1@)] + leading_pairs(all.skip(i + 1))) == before.push(
                (p.0@, p.1@),
            ) + leading_pairs(all.skip(i + 1)));
        }
        i = i + 1;
    }
    assert(all.skip(i as int).len() == 0);
    r
}

/// Binds `k` to `v` in an association list (see [`assoc_insert`]).
fn bind(e: &mut Vec<(String, String)>, k: String, v: String)
    ensures
        crate::location::fetch_args::pairs_view(final(e)@) == assoc_insert(
            crate::location::fetch_args::pairs_view(old(e)@),
            k@,
            v@,
        ),
{
    let ghost ev = crate::location::fetch_args::pairs_view(e@);
    let mut i: usize = 0;
    while i < e.len() && !str_eq(e[i].0.as_str(), k.as_str())
        invariant
            ev == crate::location::fetch_args::pairs_view(e@),
            0 <= i <= ev.len(),
            forall|j: int| 0 <= j < i ==> (#[trigger] ev[j]).0 != k@,
        decreases e.len() - i,
    {
        i = i + 1;
    }
    let ghost kv = (k@, v@);
    proof {
        lemma_assoc_insert_at(ev, k@, v@, i as int);
    }
    if i < e.len() {
        e.set(i, (k, v));
        assert(crate::location::fetch_args::pairs_view(e@) == ev.update(i as int, kv));
    } else {
        e.push((k, v));
        assert(crate::location::fetch_args::pairs_view(e@) == ev.push(kv));
    }
}

proof fn lemma_assoc_insert_at(e: Seq<(Seq<char>, Seq<char>)>, k: Seq<char>, v: Seq<char>, i: int)
    requires
        0 <= i <= e.len(),
        forall|j: int| 0 <= j < i ==> (#[trigger] e[j]).0 != k,
        i < e.len() ==> e[i].0 == k,
    ensures
        i < e.len() ==> assoc_insert(e, k, v) == e.update(i, (k, v)),
        i == e.len() ==> assoc_insert(e, k, v) == e.push((k, v)),
    decreases i,
{
    if i == 0 {
        if e.len() > 0 {
            assert(seq![(k, v)] + e.drop_first() == e.update(0, (k, v)));
        }
    } else {
        let t = e.drop_first();
        assert forall|j: int| 0 <= j < i - 1 implies (#[trigger] t[j]).0 != k by {
            assert(t[j] == e[j + 1]);
        }
        lemma_assoc_insert_at(t, k, v, i - 1);
        if i < e.len() {
            assert(seq![e[0]] + t.update(i - 1, (k, v)) == e.update(i, (k, v)));
        } else {
            assert(seq![e[0]] + t.push((k, v)) == e.push((k, v)));
        }
    }
}

/// A binding, later ones winning, looked up by name.
pub proof fn law_assoc_insert_lookup(
    e: Seq<(Seq<char>, Seq<char>)>,
    k: Seq<char>,
    v: Seq<char>,
    k2: Seq<char>,
)
    ensures
        lookup_first(assoc_insert(e, k, v), k) == Some(v),
        k2 != k ==> lookup_first(assoc_insert(e, k, v), k2) == lookup_first(e, k2),
    decreases e.len(),
{
    let r = assoc_insert(e, k, v);
    if e.len() == 0 {
        assert(r[0] == (k, v));
        assert(r.drop_first().len() == 0);
        assert(lookup_first(r.drop_first(), k2) is None);
    } else {
        law_assoc_insert_lookup(e.drop_first(), k, v, k2);
        if e[0].0 == k {
            assert(r[0] == (k, v));
            assert(r.drop_first() == e.drop_first());
        } else {
            assert(r[0] == e[0]);
            assert(r.drop_first() == assoc_insert(e.drop_first(), k, v));
        }
    }
}

impl EvalArgs {
    /// Whether `self` and `other` are equal in every field.
    pub fn same_as(&self, other: &Self) -> (r: bool)
        ensures
            r == (self@ == other@),
    {
        let system_same = match (&self.system, &other.system) {
            (Some(Some(a)), Some(Some(b))) => str_eq(a.as_str(), b.as_str()),
            (Some(None), Some(None)) => true,
            (None, None) => true,
            _ => false,
        };
        self.flake_compat == other.flake_compat && self.is_lambda == other.is_lambda
            && nested_same(&self.nix_options, &other.nix_options) && nested_same(
            &self.add_eval_args,
            &other.add_eval_args,
        ) && system_same
    }
}

impl Clone for EvalArgs {
    fn clone(&self) -> (r: Self)
        ensures
            r@ == self@,
    {
        let system = match &self.system {
            Some(Some(s)) => Some(Some(s.clone())),
            Some(None) => Some(None),
            None => None,
        };
        EvalArgs {
            flake_compat: self.flake_compat,
            nix_options: clone_nested(&self.nix_options),
            is_lambda: self.is_lambda,
            add_eval_args: clone_nested(&self.add_eval_args),
            system,
        }
    }
}

impl Default for EvalArgs {
    fn default() -> (r: Self)
        ensures
            !r.flake_compat,
            !r.is_lambda,
            r.nix_options@.len() == 0,
            r.add_eval_args@.len() == 0,
            r.system is None,
    {
        EvalArgs {
            flake_compat: false,
            nix_options: Vec::new(),
            is_lambda: false,
            add_eval_args: Vec::new(),
            system: None,
        }
    }
}

impl EvalArgs {
    /// The builder options, a name and a value each; lists with fewer than two strings are
    /// skipped, strings after the second are ignored.
    pub fn nix_options(&self) -> (r: Vec<(&str, &str)>)
        ensures
            r@.map_values(|p: (&str, &str)| (p.0@, p.1@)) == leading_pairs(self@.nix_options),
    {
        pairs_of(&self.nix_options)
    }

    /// The expression arguments, a name and a value each; lists with fewer than two strings
    /// are skipped, strings after the second are ignored.
    pub fn expression_args(&self) -> (r: Vec<(&str, &str)>)
        ensures
            r@.map_values(|p: (&str, &str)| (p.0@, p.1@)) == leading_pairs(self@.add_eval_args),
    {
        pairs_of(&self.add_eval_args)
    }

    /// Whether the argument set of a toplevel lambda needs the name of the current system.
    pub fn needs_current_system(&self) -> (r: bool)
        ensures
            r == (self.is_lambda && self.system == Some(None::<String>)),
    {
        self.is_lambda && match &self.system {
            Some(None) => true,
            _ => false,
        }
    }

    /// The argument set passed to a toplevel lambda (see [`expression_args_text`]); empty if
    /// the expression is no lambda. `current_system` is the name of the current system, needed
    /// when `system` is given without a value.
    pub fn expression_args_str(&self, current_system: Option<&str>) -> (r: String)
        requires
            self.is_lambda && self.system == Some(None::<String>) ==> current_system is Some,
        ensures
            r@ == expression_args_text(self@, match current_system {
                Some(s) => Some(s@),
                None => None,
            }),
    {
        if !self.is_lambda {
            return String::new();
        }
        let pairs = self.expression_args();
        let ghost pv = pairs@.map_values(|p: (&str, &str)| (p.0@, p.1@));
        let mut map: Vec<(String, String)> = Vec::new();
        let mut i: usize = 0;
        while i < pairs.len()
            invariant
                pv == pairs@.map_values(|p: (&str, &str)| (p.0@, p.1@)),
                0 <= i <= pv.len(),
                crate::location::fetch_args::pairs_view(map@) == assoc_from(pv.take(i as int)),
            decreases pairs.len() - i,
        {
            assert(pv.take(i + 1).drop_last() == pv.take(i as int));
            assert(pv.take(i + 1).last() == pv[i as int]);
            bind(&mut map, owned(pairs[i].0), owned(pairs[i].1));
            i = i + 1;
        }
        assert(pv.take(pv.len() as int) == pv);
        proof {
            reveal_strlit("\"");
            reveal_strlit("system");
        }
        let ghost cs_view = match current_system {
            Some(s) => Some(s@),
            None => None,
        };
        assert("\""@ == seq!['"']);
        assert(crate::location::fetch_args::pairs_view(map@) == assoc_from(leading_pairs(
            self@.add_eval_args,
        )));
        match &self.system {
            Some(Some(s)) => {
                let mut q = owned("\"");
                push_str(&mut q, s.as_str());
                push_str(&mut q, "\"");
                bind(&mut map, owned("system"), q);
            },
            Some(None) => {
                let cs = current_system.unwrap();
                let mut q = owned("\"");
                push_str(&mut q, cs);
                push_str(&mut q, "\"");
                bind(&mut map, owned("system"), q);
            },
            None => {},
        }
        assert(crate::location::fetch_args::pairs_view(map@) == expression_bindings(
            self@,
            cs_view,
        ));
        let ghost bindings = crate::location::fetch_args::pairs_view(map@);
        let mut s = owned("{ ");
        let mut j: usize = 0;
        while j < map.len()
            invariant
                bindings == crate::location::fetch_args::pairs_view(map@),
                0 <= j <= bindings.len(),
                s@ == "{ "@ + bindings_text(bindings.take(j as int)),
            decreases map.len() - j,
        {
            let ghost piece = bindings[j as int].0 + " = "@ + bindings[j as int].1 + "; "@;
            push_str(&mut s, map[j].0.as_str());
            push_str(&mut s, " = ");
            push_str(&mut s, map[j].1.as_str());
            push_str(&mut s, "; ");
            proof {
                let f = |kv: (Seq<char>, Seq<char>)| kv.0 + " = "@ + kv.1 + "; "@;
                assert(bindings.take(j + 1).map_values(f) == bindings.take(j as int).map_values(
                    f,
                ).push(piece));
                lemma_concat_push(bindings.take(j as int).map_values(f), piece);
            }
            j = j + 1;
        }
        assert(bindings.take(bindings.len() as int) == bindings);
        push_str(&mut s, "} ");
        s
    }
}

} // verus!
