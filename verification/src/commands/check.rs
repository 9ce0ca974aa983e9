//! Running the checks of a Nix repository: which attributes are checks, in which order they
//! run, and how the results are reported.
use vstd::prelude::*;

use crate::error::NieError;
use crate::eval_args::EvalArgs;
use crate::location::attribute_path::{attribute_path_text, is_proper_prefix};
use crate::location::{AttributePath, NixReference};
use crate::store::file::paths_view;
use crate::text::{decimal, decimal_string, owned, push_str, starts_with, starts_with_str};

verus! {

broadcast use vstd::seq_lib::group_seq_properties;

/// Runs the checks of a Nix repository.
pub struct CheckCommand {
    /// Nix reference to fetch and check.
    pub reference: NixReference,
    /// Go on after a check failed.
    pub keep_going: bool,
    /// How the repository's file is evaluated.
    pub eval_args: EvalArgs,
    /// Additional arguments for the Nix builder.
    pub extra_args: Vec<String>,
}

/// The attributes below `parent`, in order.
pub open spec fn potential_checks(attrs: Seq<Seq<Seq<char>>>, parent: Seq<Seq<char>>) -> Seq<
    Seq<Seq<char>>,
>
    decreases attrs.len(),
{
    if attrs.len() == 0 {
        Seq::empty()
    } else {
        (if is_proper_prefix(parent, attrs[0]) {
            seq![attrs[0]]
        } else {
            Seq::empty()
        }) + potential_checks(attrs.drop_first(), parent)
    }
}

/// `other` is another attribute whose text starts with that of `c`.
pub open spec fn shadows(other: Seq<Seq<char>>, c: Seq<Seq<char>>) -> bool {
    other != c && starts_with(attribute_path_text(other), attribute_path_text(c))
}

/// No attribute of `all` shadows `c`: `c` is a leaf.
pub open spec fn is_leaf_check(c: Seq<Seq<char>>, all: Seq<Seq<Seq<char>>>) -> bool {
    forall|j: int| 0 <= j < all.len() ==> !shadows(#[trigger] all[j], c)
}

/// The attributes of `cs` that are leaves among `all`, in order.
pub open spec fn leaf_checks(cs: Seq<Seq<Seq<char>>>, all: Seq<Seq<Seq<char>>>) -> Seq<Seq<Seq<char>>>
    decreases cs.len(),
{
    if cs.len() == 0 {
        Seq::empty()
    } else {
        (if is_leaf_check(cs[0], all) {
            seq![cs[0]]
        } else {
            Seq::empty()
        }) + leaf_checks(cs.drop_first(), all)
    }
}

/// The checks among the attributes of a file: those below `parent` that are leaves among them.
pub open spec fn selected_checks(attrs: Seq<Seq<Seq<char>>>, parent: Seq<Seq<char>>) -> Seq<
    Seq<Seq<char>>,
> {
    leaf_checks(potential_checks(attrs, parent), potential_checks(attrs, parent))
}

proof fn lemma_potential_below(attrs: Seq<Seq<Seq<char>>>, parent: Seq<Seq<char>>)
    ensures
        forall|i: int|
            0 <= i < potential_checks(attrs, parent).len() ==> is_proper_prefix(
                parent,
                #[trigger] potential_checks(attrs, parent)[i],
            ),
    decreases attrs.len(),
{
    if attrs.len() > 0 {
        lemma_potential_below(attrs.drop_first(), parent);
        let head: Seq<Seq<Seq<char>>> = if is_proper_prefix(parent, attrs[0]) {
            seq![attrs[0]]
        } else {
            Seq::empty()
        };
        let rest = potential_checks(attrs.drop_first(), parent);
        assert forall|i: int| 0 <= i < potential_checks(attrs, parent).len() implies is_proper_prefix(
            parent,
            #[trigger] potential_checks(attrs, parent)[i],
        ) by {
            assert(potential_checks(attrs, parent) == head + rest);
            if i >= head.len() {
                assert((head + rest)[i] == rest[i - head.len()]);
            }
        }
    }
}

proof fn lemma_leaves(cs: Seq<Seq<Seq<char>>>, all: Seq<Seq<Seq<char>>>)
    ensures
        forall|i: int|
            0 <= i < leaf_checks(cs, all).len() ==> is_leaf_check(#[trigger] leaf_checks(cs, all)[i], all)
                && cs.contains(leaf_checks(cs, all)[i]),
    decreases cs.len(),
{
    if cs.len() > 0 {
        lemma_leaves(cs.drop_first(), all);
        let head: Seq<Seq<Seq<char>>> = if is_leaf_check(cs[0], all) {
            seq![cs[0]]
        } else {
            Seq::empty()
        };
        let rest = leaf_checks(cs.drop_first(), all);
        assert forall|i: int| 0 <= i < leaf_checks(cs, all).len() implies is_leaf_check(
            #[trigger] leaf_checks(cs, all)[i],
            all,
        ) && cs.contains(leaf_checks(cs, all)[i]) by {
            assert(leaf_checks(cs, all) == head + rest);
            if i >= head.len() {
                assert((head + rest)[i] == rest[i - head.len()]);
                let k = choose|k: int| 0 <= k < cs.drop_first().len() && cs.drop_first()[k] == rest[i - head.len()];
                assert(cs[k + 1] == cs.drop_first()[k]);
            } else {
                assert(cs[0] == leaf_checks(cs, all)[i]);
            }
        }
    }
}

/// The checks of a file lie below the checks' parent, and no other attribute below the parent
/// extends the text of one of them: only leaves are checks.
pub proof fn law_checks_are_leaves_below(attrs: Seq<Seq<Seq<char>>>, parent: Seq<Seq<char>>)
    ensures
        forall|i: int|
            0 <= i < selected_checks(attrs, parent).len() ==> is_proper_prefix(
                parent,
                #[trigger] selected_checks(attrs, parent)[i],
            ) && is_leaf_check(selected_checks(attrs, parent)[i], potential_checks(attrs, parent)),
{
    let p = potential_checks(attrs, parent);
    lemma_potential_below(attrs, parent);
    lemma_leaves(p, p);
    assert forall|i: int| 0 <= i < selected_checks(attrs, parent).len() implies is_proper_prefix(
        parent,
        #[trigger] selected_checks(attrs, parent)[i],
    ) && is_leaf_check(selected_checks(attrs, parent)[i], p) by {
        let x = selected_checks(attrs, parent)[i];
        assert(x == leaf_checks(p, p)[i]);
        assert(p.contains(x));
        let k = choose|k: int| 0 <= k < p.len() && p[k] == x;
        assert(is_proper_prefix(parent, p[k]));
    }
}

/// The attributes below `parent` (see [`potential_checks`]).
fn below(attributes: &[AttributePath], parent: &AttributePath) -> (r: Vec<AttributePath>)
    ensures
        paths_view(r@) == potential_checks(paths_view(attributes@), parent@),
{
    let ghost all = paths_view(attributes@);
    let mut r: Vec<AttributePath> = Vec::new();
    let mut i: usize = 0;
    assert(all.skip(0) == all);
    while i < attributes.len()
        invariant
            all == paths_view(attributes@),
            0 <= i <= all.len(),
            potential_checks(all, parent@) == paths_view(r@) + potential_checks(all.skip(i as int), parent@),
        decreases attributes.len() - i,
    {
        assert(all.skip(i as int)[0] == all[i as int]);
        assert(all.skip(i as int).drop_first() == all.skip(i + 1));
        let ghost before = paths_view(r@);
        let ghost rest = potential_checks(all.skip(i + 1), parent@);
        if attributes[i].is_indirect_child(parent) {
            r.push(attributes[i].clone());
            assert(paths_view(r@) == before.push(all[i as int]));
            assert(before + (seq![all[i as int]] + rest) == before.push(all[i as int]) + rest);
        } else {
            assert(Seq::<Seq<Seq<char>>>::empty() + rest == rest);
        }
        i = i + 1;
    }
    r
}

/// Whether attribute `i` of `cs` is a leaf among them; `texts` holds their texts.
fn is_leaf_at(cs: &Vec<AttributePath>, texts: &Vec<String>, i: usize) -> (r: bool)
    requires
        i < cs@.len(),
        texts@.len() == cs@.len(),
        forall|j: int| 0 <= j < cs@.len() ==> #[trigger] texts@[j]@ == attribute_path_text(cs@[j]@),
    ensures
        r == is_leaf_check(paths_view(cs@)[i as int], paths_view(cs@)),
{
    let ghost all = paths_view(cs@);
    let mut j: usize = 0;
    while j < cs.len()
        invariant
            all == paths_view(cs@),
            i < cs@.len(),
            texts@.len() == cs@.len(),
            forall|k: int| 0 <= k < cs@.len() ==> #[trigger] texts@[k]@ == attribute_path_text(cs@[k]@),
            0 <= j <= cs@.len(),
            forall|k: int| 0 <= k < j ==> !shadows(#[trigger] all[k], all[i as int]),
        decreases cs.len() - j,
    {
        if !cs[j].same_as(&cs[i]) && starts_with_str(texts[j].as_str(), texts[i].as_str()) {
            assert(shadows(all[j as int], all[i as int]));
            return false;
        }
        j = j + 1;
    }
    true
}

/// The checks among the attributes of a file (see [`selected_checks`]): those below `parent`
/// that no other one below it extends, in the order of `attributes`.
pub fn select_checks(attributes: &[AttributePath], parent: &AttributePath) -> (r: Vec<AttributePath>)
    ensures
        paths_view(r@) == selected_checks(paths_view(attributes@), parent@),
{
    let cs = below(attributes, parent);
    let ghost all = paths_view(cs@);
    let mut texts: Vec<String> = Vec::new();
    let mut k: usize = 0;
    while k < cs.len()
        invariant
            0 <= k <= cs@.len(),
            texts@.len() == k,
            forall|j: int| 0 <= j < k ==> #[trigger] texts@[j]@ == attribute_path_text(cs@[j]@),
        decreases cs.len() - k,
    {
        texts.push(cs[k].to_string());
        k = k + 1;
    }
    let mut r: Vec<AttributePath> = Vec::new();
    let mut i: usize = 0;
    assert(all.skip(0) == all);
    while i < cs.len()
        invariant
            all == paths_view(cs@),
            texts@.len() == cs@.len(),
            forall|j: int| 0 <= j < cs@.len() ==> #[trigger] texts@[j]@ == attribute_path_text(cs@[j]@),
            0 <= i <= all.len(),
            leaf_checks(all, all) == paths_view(r@) + leaf_checks(all.skip(i as int), all),
        decreases cs.len() - i,
    {
        assert(all.skip(i as int)[0] == all[i as int]);
        assert(all.skip(i as int).drop_first() == all.skip(i + 1));
        let ghost before = paths_view(r@);
        let ghost rest = leaf_checks(all.skip(i + 1), all);
        if is_leaf_at(&cs, &texts, i) {
            r.push(cs[i].clone());
            assert(paths_view(r@) == before.push(all[i as int]));
            assert(before + (seq![all[i as int]] + rest) == before.push(all[i as int]) + rest);
        } else {
            assert(Seq::<Seq<Seq<char>>>::empty() + rest == rest);
        }
        i = i + 1;
    }
    r
}

/// The outcome of a check in a run.
#[derive(Debug, Clone, Copy, PartialEq, Eq, Structural)]
pub enum CheckOutcome {
    Succeeded,
    Failed,
    NotRun,
}

/// The abstract value of a [`CheckRun`].
pub struct CheckRunView {
    pub total: nat,
    pub keep_going: bool,
    pub results: Seq<bool>,
}

/// The check to run next: the one after those run so far, unless all ran or the last one
/// failed and the run does not go on after failures.
pub open spec fn next_check(v: CheckRunView) -> Option<nat> {
    if v.results.len() < v.total && (v.keep_going || v.results.len() == 0 || v.results.last()) {
        Some(v.results.len())
    } else {
        None
    }
}

/// The outcome of check `i`: whether it succeeded where it ran.
pub open spec fn outcome_of(results: Seq<bool>, i: int) -> CheckOutcome {
    if 0 <= i < results.len() {
        if results[i] {
            CheckOutcome::Succeeded
        } else {
            CheckOutcome::Failed
        }
    } else {
        CheckOutcome::NotRun
    }
}

/// A run of a number of checks, one after the other.
pub struct CheckRun {
    total: usize,
    keep_going: bool,
    results: Vec<bool>,
}

impl View for CheckRun {
    type V = CheckRunView;

    closed spec fn view(&self) -> CheckRunView {
        CheckRunView { total: self.total as nat, keep_going: self.keep_going, results: self.results@ }
    }
}

impl CheckRun {
    /// A run of `total` checks, none run yet; with `keep_going` it goes on after failures.
    pub fn new(total: usize, keep_going: bool) -> (r: Self)
        ensures
            r@ == (CheckRunView { total: total as nat, keep_going, results: Seq::empty() }),
    {
        CheckRun { total, keep_going, results: Vec::new() }
    }

    /// The number of the check to run next, if any (see [`next_check`]).
    pub fn next(&self) -> (r: Option<usize>)
        ensures
            match r {
                Some(i) => next_check(self@) == Some(i as nat),
                None => next_check(self@) is None,
            },
    {
        let n = self.results.len();
        if n < self.total && (self.keep_going || n == 0 || self.results[n - 1]) {
            Some(n)
        } else {
            None
        }
    }

    /// Records whether the check that ran next succeeded.
    pub fn record(&mut self, succeeded: bool)
        requires
            next_check(old(self)@) is Some,
        ensures
            final(self)@ == (CheckRunView { results: old(self)@.results.push(succeeded), ..old(self)@ }),
    {
        self.results.push(succeeded);
    }

    /// The outcome of each check, in order.
    pub fn outcomes(&self) -> (r: Vec<CheckOutcome>)
        ensures
            r@.len() == self@.total,
            forall|i: int| 0 <= i < r@.len() ==> #[trigger] r@[i] == outcome_of(self@.results, i),
    {
        let mut r: Vec<CheckOutcome> = Vec::new();
        let mut i: usize = 0;
        while i < self.total
            invariant
                0 <= i <= self.total,
                r@.len() == i,
                forall|j: int| 0 <= j < i ==> #[trigger] r@[j] == outcome_of(self@.results, j),
            decreases self.total - i,
        {
            let o = if i < self.results.len() {
                if self.results[i] {
                    CheckOutcome::Succeeded
                } else {
                    CheckOutcome::Failed
                }
            } else {
                CheckOutcome::NotRun
            };
            r.push(o);
            i = i + 1;
        }
        r
    }

    /// Whether a check of the run failed.
    pub fn any_failed(&self) -> (r: bool)
        ensures
            r == exists|i: int| 0 <= i < self@.results.len() && !#[trigger] self@.results[i],
    {
        let mut i: usize = 0;
        while i < self.results.len()
            invariant
                0 <= i <= self.results@.len(),
                forall|j: int| 0 <= j < i ==> #[trigger] self.results@[j],
            decreases self.results.len() - i,
        {
            if !self.results[i] {
                assert(!self@.results[i as int]);
                return true;
            }
            i = i + 1;
        }
        false
    }
}

/// A run that does not go on after failures runs no check after a failed one.
pub proof fn law_no_check_after_failure(v: CheckRunView)
    requires
        !v.keep_going,
        v.results.len() > 0,
        !v.results.last(),
    ensures
        next_check(v) is None,
{
}

/// A run that goes on after failures runs every check, in order.
pub proof fn law_keep_going_runs_all(v: CheckRunView)
    requires
        v.keep_going,
    ensures
        v.results.len() < v.total <==> next_check(v) == Some(v.results.len()),
        v.results.len() >= v.total <==> next_check(v) is None,
{
}

/// The line of the list of checks to run.
pub open spec fn check_list_line(attr: Seq<Seq<char>>) -> Seq<char> {
    "  🔳 "@ + attribute_path_text(attr)
}

/// The line that reports the outcome of a check.
pub open spec fn outcome_line_of(o: CheckOutcome, attr: Seq<Seq<char>>) -> Seq<char> {
    match o {
        CheckOutcome::Succeeded => "  ✅ "@ + attribute_path_text(attr),
        CheckOutcome::Failed => "  ❌ "@ + attribute_path_text(attr),
        CheckOutcome::NotRun => "  ❔ "@ + attribute_path_text(attr),
    }
}

impl CheckCommand {
    /// The checks of the current system: `checks.<system>`.
    pub fn system_checks(current_system: &str) -> (r: AttributePath)
        ensures
            r@ == seq!["checks"@, current_system@],
    {
        AttributePath::toplevel().child(owned("checks")).child(owned(current_system))
    }

    /// Where checks are looked for: below `checks.<system>` where the file has it, below
    /// `checks` otherwise.
    pub fn check_parent(current_system: &str, system_checks_found: bool) -> (r: AttributePath)
        ensures
            system_checks_found ==> r@ == seq!["checks"@, current_system@],
            !system_checks_found ==> r@ == seq!["checks"@],
    {
        if system_checks_found {
            Self::system_checks(current_system)
        } else {
            AttributePath::toplevel().child(owned("checks"))
        }
    }

    /// The error for a repository without checks.
    pub fn no_checks_error(&self) -> (r: NieError)
        ensures
            r matches NieError::NoChecksFound(x) && x@ == self.reference@,
    {
        NieError::NoChecksFound(Box::new(self.reference.clone()))
    }

    /// The announcement of a run of `n` checks.
    pub fn running_checks(n: usize) -> (r: String)
        ensures
            r@ == "Running "@ + decimal(n as nat) + " checks:"@,
    {
        let mut s = owned("Running ");
        let d = decimal_string(n as u64);
        push_str(&mut s, d.as_str());
        push_str(&mut s, " checks:");
        s
    }

    /// The announcement of running one check.
    pub fn running_check(attr: &AttributePath) -> (r: String)
        ensures
            r@ == "Running check \""@ + attribute_path_text(attr@) + "\""@,
    {
        let mut s = owned("Running check \"");
        let a = attr.to_string();
        push_str(&mut s, a.as_str());
        push_str(&mut s, "\"");
        s
    }

    /// The line of the list of checks to run (see [`check_list_line`]).
    pub fn list_line(attr: &AttributePath) -> (r: String)
        ensures
            r@ == check_list_line(attr@),
    {
        let mut s = owned("  🔳 ");
        let a = attr.to_string();
        push_str(&mut s, a.as_str());
        s
    }

    /// The line that reports the outcome of a check (see [`outcome_line_of`]).
    pub fn outcome_line(outcome: CheckOutcome, attr: &AttributePath) -> (r: String)
        ensures
            r@ == outcome_line_of(outcome, attr@),
    {
        let mut s = match outcome {
            CheckOutcome::Succeeded => owned("  ✅ "),
            CheckOutcome::Failed => owned("  ❌ "),
            CheckOutcome::NotRun => owned("  ❔ "),
        };
        let a = attr.to_string();
        push_str(&mut s, a.as_str());
        s
    }

    /// The word that sums up a run or a check: `FAILURE` where something failed, `SUCCESS`
    /// otherwise.
    pub fn verdict(failed: bool) -> (r: &'static str)
        ensures
            failed ==> r@ == "FAILURE"@,
            !failed ==> r@ == "SUCCESS"@,
    {
        if failed {
            "FAILURE"
        } else {
            "SUCCESS"
        }
    }
}

} // verus!
