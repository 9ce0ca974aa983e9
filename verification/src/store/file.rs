//! Nix files of checkouts, and the attributes they define.
use vstd::prelude::*;

use crate::error::NieError;
use crate::eval_args::{EvalArgs, EvalArgsView};
use crate::json::{parse_json, spec_json_value, JsonMember, JsonValue, JsonView};
use crate::location::file_reference::NixFileReferenceView;
use crate::location::{AttributePath, NixFileReference};
use crate::nix::{has_attribute, has_attribute_check_args, has_attribute_query_args, Invocation};
use crate::paths::{join_path, path_join};
use crate::registry::{Registry, RegistryValue};
use crate::store::checkout::{Checkout, CheckoutView};
use crate::text::{decimal, decimal_string, owned, opt_view, str_eq};

verus! {

broadcast use vstd::seq_lib::group_seq_properties;

/// The abstract values of a list of attribute paths.
pub open spec fn paths_view(v: Seq<AttributePath>) -> Seq<Seq<Seq<char>>> {
    v.map_values(|a: AttributePath| a@)
}

/// Why the attributes of a discovered value cannot be listed.
pub enum UnfoldError {
    /// The attribute at this path is broken.
    Broken(Seq<Seq<char>>),
    /// The value does not have the shape that discovery gives.
    Unexpected(JsonView),
}

/// `res` with `prefix` before its paths, where it is a success.
pub open spec fn prepend(
    prefix: Seq<Seq<Seq<char>>>,
    res: Result<Seq<Seq<Seq<char>>>, UnfoldError>,
) -> Result<Seq<Seq<Seq<char>>>, UnfoldError> {
    match res {
        Ok(l) => Ok(prefix + l),
        Err(e) => Err(e),
    }
}

/// The attribute paths below `parent` that a discovered value lists, each path before the paths
/// below it. An object lists its members in order; the text `<broken>` stands for an attribute
/// that failed to evaluate, which is skipped unless `reject_broken` is set; any other text, or
/// a broken attribute that is rejected, is an error at `parent`; any other value is unexpected.
pub open spec fn unfold_value(parent: Seq<Seq<char>>, v: JsonView, reject_broken: bool) -> Result<
    Seq<Seq<Seq<char>>>,
    UnfoldError,
>
    decreases v, 0int,
{
    match v {
        JsonView::Object(ks, vs) => unfold_members(parent, ks, vs, reject_broken, 0),
        JsonView::String(s) => if s == "<broken>"@ && !reject_broken {
            Ok(Seq::empty())
        } else {
            Err(UnfoldError::Broken(parent))
        },
        _ => Err(UnfoldError::Unexpected(v)),
    }
}

/// The attribute paths that the members of an object from number `i` on list below `parent`
/// (see [`unfold_value`]).
pub open spec fn unfold_members(
    parent: Seq<Seq<char>>,
    ks: Seq<Seq<char>>,
    vs: Seq<JsonView>,
    reject_broken: bool,
    i: int,
) -> Result<Seq<Seq<Seq<char>>>, UnfoldError>
    decreases vs, vs.len() - i,
{
    if i < 0 || i >= vs.len() {
        Ok(Seq::empty())
    } else {
        let new = parent.push(ks[i]);
        match unfold_value(new, vs[i], reject_broken) {
            Err(e) => Err(e),
            Ok(sub) => prepend(seq![new] + sub, unfold_members(parent, ks, vs, reject_broken, i + 1)),
        }
    }
}

/// The value of the first member with key `k` from number `j` on.
pub open spec fn member_from(ks: Seq<Seq<char>>, vs: Seq<JsonView>, k: Seq<char>, j: int) -> Option<JsonView>
    decreases ks.len() - j,
{
    if j < 0 || j >= ks.len() {
        None
    } else if ks[j] == k {
        Some(vs[j])
    } else {
        member_from(ks, vs, k, j + 1)
    }
}

/// The value of the first member with key `k`.
pub open spec fn member(ks: Seq<Seq<char>>, vs: Seq<JsonView>, k: Seq<char>) -> Option<JsonView> {
    member_from(ks, vs, k, 0)
}

/// The attribute paths that a flake's discovered value lists: an array of objects, each with a
/// text `name` and a `value` whose paths (see [`unfold_value`]) lie below that name; any other
/// shape is unexpected, and the whole value is reported.
pub open spec fn unfold_flake(v: JsonView, reject_broken: bool) -> Result<Seq<Seq<Seq<char>>>, UnfoldError> {
    match v {
        JsonView::Array(elems) => unfold_flake_elems(v, elems, reject_broken, 0),
        _ => Err(UnfoldError::Unexpected(v)),
    }
}

/// The attribute paths that the elements of a flake's discovered value from number `i` on list
/// (see [`unfold_flake`]); `whole` is the value itself.
pub open spec fn unfold_flake_elems(whole: JsonView, elems: Seq<JsonView>, reject_broken: bool, i: int) -> Result<
    Seq<Seq<Seq<char>>>,
    UnfoldError,
>
    decreases elems.len() - i,
{
    if i < 0 || i >= elems.len() {
        Ok(Seq::empty())
    } else {
        match elems[i] {
            JsonView::Object(ks, vs) => match (member(ks, vs, "name"@), member(ks, vs, "value"@)) {
                (Some(JsonView::String(name)), Some(value)) => {
                    let new = seq![name];
                    match unfold_value(new, value, reject_broken) {
                        Err(e) => Err(e),
                        Ok(sub) => prepend(
                            seq![new] + sub,
                            unfold_flake_elems(whole, elems, reject_broken, i + 1),
                        ),
                    }
                },
                _ => Err(UnfoldError::Unexpected(whole)),
            },
            _ => Err(UnfoldError::Unexpected(whole)),
        }
    }
}

/// Every path that a discovered value lists below `parent` lies below it.
pub proof fn law_unfolded_paths_lie_below(parent: Seq<Seq<char>>, v: JsonView, reject_broken: bool)
    ensures
        unfold_value(parent, v, reject_broken) matches Ok(l) ==> forall|i: int|
            0 <= i < l.len() ==> crate::location::attribute_path::is_proper_prefix(parent, #[trigger] l[i]),
    decreases v, 0int,
{
    if let JsonView::Object(ks, vs) = v {
        lemma_members_lie_below(parent, ks, vs, reject_broken, 0);
    }
}

proof fn lemma_members_lie_below(
    parent: Seq<Seq<char>>,
    ks: Seq<Seq<char>>,
    vs: Seq<JsonView>,
    reject_broken: bool,
    i: int,
)
    ensures
        unfold_members(parent, ks, vs, reject_broken, i) matches Ok(l) ==> forall|j: int|
            0 <= j < l.len() ==> crate::location::attribute_path::is_proper_prefix(parent, #[trigger] l[j]),
    decreases vs, vs.len() - i,
{
    if 0 <= i < vs.len() {
        let new = parent.push(ks[i]);
        assert(decreases_to!(vs => vs[i]));
        law_unfolded_paths_lie_below(new, vs[i], reject_broken);
        lemma_members_lie_below(parent, ks, vs, reject_broken, i + 1);
        if let Ok(sub) = unfold_value(new, vs[i], reject_broken) {
            if let Ok(rest) = unfold_members(parent, ks, vs, reject_broken, i + 1) {
                let l = seq![new] + sub + rest;
                assert(unfold_members(parent, ks, vs, reject_broken, i) == Ok::<Seq<Seq<Seq<char>>>, UnfoldError>(l));
                assert forall|j: int| 0 <= j < l.len() implies crate::location::attribute_path::is_proper_prefix(
                    parent,
                    #[trigger] l[j],
                ) by {
                    if j == 0 {
                        assert(l[j] == new);
                        assert(new.take(parent.len() as int) == parent);
                    } else if j < 1 + sub.len() {
                        let x = sub[j - 1];
                        assert(l[j] == x);
                        assert(crate::location::attribute_path::is_proper_prefix(new, x));
                        assert(x.take(new.len() as int) == new);
                        assert(x.take(parent.len() as int) == x.take(new.len() as int).take(parent.len() as int));
                        assert(new.take(parent.len() as int) == parent);
                    } else {
                        assert(l[j] == rest[j - 1 - sub.len()]);
                    }
                }
            }
        }
    }
}

/// `r` is what unfolding gives after the paths `acc`, where the abstract outcome is `res`.
pub open spec fn unfolded(
    acc: Seq<Seq<Seq<char>>>,
    res: Result<Seq<Seq<Seq<char>>>, UnfoldError>,
    r: Result<Vec<AttributePath>, NieError>,
) -> bool {
    match res {
        Ok(l) => r matches Ok(v) && paths_view(v@) == acc + l,
        Err(UnfoldError::Broken(p)) => r matches Err(NieError::BrokenAttribute(a)) && a@ == p,
        Err(UnfoldError::Unexpected(j)) => r matches Err(NieError::JsonUnfolding(x)) && x@ == j,
    }
}

proof fn lemma_prepend_prepend(
    a: Seq<Seq<Seq<char>>>,
    b: Seq<Seq<Seq<char>>>,
    res: Result<Seq<Seq<Seq<char>>>, UnfoldError>,
)
    ensures
        prepend(a, prepend(b, res)) == prepend(a + b, res),
{
    if let Ok(l) = res {
        assert(a + (b + l) == (a + b) + l);
    }
}

proof fn lemma_object_view(value: JsonValue, ms: Vec<JsonMember>)
    requires
        value == JsonValue::Object(ms),
    ensures
        value@ is Object,
        value@->Object_0.len() == ms@.len(),
        value@->Object_1.len() == ms@.len(),
        forall|j: int| 0 <= j < ms@.len() ==> #[trigger] value@->Object_0[j] == ms@[j].key@,
        forall|j: int| 0 <= j < ms@.len() ==> #[trigger] value@->Object_1[j] == ms@[j].value@,
{
}

proof fn lemma_member_first(ks: Seq<Seq<char>>, vs: Seq<JsonView>, k: Seq<char>, s: int, j: int)
    requires
        0 <= s <= j < ks.len(),
        ks[j] == k,
        forall|l: int| s <= l < j ==> ks[l] != k,
    ensures
        member_from(ks, vs, k, s) == Some(vs[j]),
    decreases j - s,
{
    if s < j {
        lemma_member_first(ks, vs, k, s + 1, j);
    }
}

proof fn lemma_member_none(ks: Seq<Seq<char>>, vs: Seq<JsonView>, k: Seq<char>, s: int)
    requires
        0 <= s <= ks.len(),
        forall|l: int| s <= l < ks.len() ==> ks[l] != k,
    ensures
        member_from(ks, vs, k, s) is None,
    decreases ks.len() - s,
{
    if s < ks.len() {
        lemma_member_none(ks, vs, k, s + 1);
    }
}

/// The value of the first member of `ms` with key `key`.
fn find_member<'a>(ms: &'a Vec<JsonMember>, key: &str) -> (r: Option<&'a JsonValue>)
    ensures
        match r {
            Some(v) => member(JsonValue::Object(*ms)@->Object_0, JsonValue::Object(*ms)@->Object_1, key@)
                == Some(v@),
            None => member(JsonValue::Object(*ms)@->Object_0, JsonValue::Object(*ms)@->Object_1, key@) is None,
        },
{
    let ghost whole = JsonValue::Object(*ms);
    proof {
        lemma_object_view(whole, *ms);
    }
    let ghost ks = whole@->Object_0;
    let ghost vs = whole@->Object_1;
    let mut i: usize = 0;
    while i < ms.len()
        invariant
            0 <= i <= ms@.len(),
            ks.len() == ms@.len(),
            vs.len() == ms@.len(),
            forall|j: int| 0 <= j < ms@.len() ==> #[trigger] ks[j] == ms@[j].key@,
            forall|j: int| 0 <= j < ms@.len() ==> #[trigger] vs[j] == ms@[j].value@,
            forall|l: int| 0 <= l < i ==> ks[l] != key@,
            ks == JsonValue::Object(*ms)@->Object_0,
            vs == JsonValue::Object(*ms)@->Object_1,
        decreases ms.len() - i,
    {
        if str_eq(ms[i].key.as_str(), key) {
            proof {
                lemma_member_first(ks, vs, key@, 0, i as int);
            }
            return Some(&ms[i].value);
        }
        i = i + 1;
    }
    proof {
        lemma_member_none(ks, vs, key@, 0);
    }
    None
}

/// Lists the attribute paths below `parent` that the discovered value `value` gives (see
/// [`unfold_value`]), after those in `acc`.
pub fn unfold_attributes(
    acc: Vec<AttributePath>,
    parent: AttributePath,
    value: &JsonValue,
    reject_broken: bool,
) -> (r: Result<Vec<AttributePath>, NieError>)
    ensures
        unfolded(paths_view(acc@), unfold_value(parent@, value@, reject_broken), r),
    decreases value,
{
    match value {
        JsonValue::Object(ms) => {
            proof {
                lemma_object_view(*value, *ms);
            }
            let ghost ks = value@->Object_0;
            let ghost vs = value@->Object_1;
            let ghost acc0 = paths_view(acc@);
            let ghost mut added: Seq<Seq<Seq<char>>> = Seq::empty();
            let mut acc = acc;
            let mut i: usize = 0;
            assert(paths_view(acc@) == acc0 + added);
            while i < ms.len()
                invariant
                    0 <= i <= ms@.len(),
                    ks.len() == ms@.len(),
                    vs.len() == ms@.len(),
                    forall|j: int| 0 <= j < ms@.len() ==> #[trigger] ks[j] == ms@[j].key@,
                    forall|j: int| 0 <= j < ms@.len() ==> #[trigger] vs[j] == ms@[j].value@,
                    paths_view(acc@) == acc0 + added,
                    unfold_members(parent@, ks, vs, reject_broken, 0) == prepend(
                        added,
                        unfold_members(parent@, ks, vs, reject_broken, i as int),
                    ),
                    value@ == JsonView::Object(ks, vs),
                    *value == JsonValue::Object(*ms),
                decreases ms.len() - i,
            {
                proof {
                    assert(decreases_to!(value => ms@[i as int].value));
                }
                let new = parent.child(ms[i].key.clone());
                let ghost nv = new@;
                let ghost before = paths_view(acc@);
                acc.push(new.clone());
                assert(paths_view(acc@) == before.push(nv));
                match unfold_attributes(acc, new, &ms[i].value, reject_broken) {
                    Ok(a) => {
                        let ghost sub = unfold_value(nv, vs[i as int], reject_broken)->Ok_0;
                        proof {
                            lemma_prepend_prepend(
                                added,
                                seq![nv] + sub,
                                unfold_members(parent@, ks, vs, reject_broken, i + 1),
                            );
                            assert(before.push(nv) + sub == acc0 + (added + (seq![nv] + sub)));
                            added = added + (seq![nv] + sub);
                        }
                        acc = a;
                    },
                    Err(e) => {
                        return Err(e);
                    },
                }
                i = i + 1;
            }
            assert(added + Seq::<Seq<Seq<char>>>::empty() == added);
            Ok(acc)
        },
        JsonValue::String(s) => {
            if str_eq(s.as_str(), "<broken>") && !reject_broken {
                Ok(acc)
            } else {
                Err(NieError::BrokenAttribute(parent))
            }
        },
        _ => Err(NieError::JsonUnfolding(value.clone())),
    }
}

/// Lists the attribute paths that the discovered value `value` of a flake gives (see
/// [`unfold_flake`]), after those in `acc`.
pub fn unfold_attributes_flake(acc: Vec<AttributePath>, value: &JsonValue, reject_broken: bool) -> (r: Result<
    Vec<AttributePath>,
    NieError,
>)
    ensures
        unfolded(paths_view(acc@), unfold_flake(value@, reject_broken), r),
{
    match value {
        JsonValue::Array(arr) => {
            let ghost elems = value@->Array_0;
            let ghost acc0 = paths_view(acc@);
            let ghost mut added: Seq<Seq<Seq<char>>> = Seq::empty();
            let mut acc = acc;
            let mut i: usize = 0;
            assert(paths_view(acc@) == acc0 + added);
            while i < arr.len()
                invariant
                    0 <= i <= arr@.len(),
                    elems.len() == arr@.len(),
                    forall|j: int| 0 <= j < arr@.len() ==> #[trigger] elems[j] == arr@[j]@,
                    paths_view(acc@) == acc0 + added,
                    unfold_flake_elems(value@, elems, reject_broken, 0) == prepend(
                        added,
                        unfold_flake_elems(value@, elems, reject_broken, i as int),
                    ),
                    value@ == JsonView::Array(elems),
                decreases arr.len() - i,
            {
                match &arr[i] {
                    JsonValue::Object(map) => {
                        proof {
                            lemma_object_view(arr@[i as int], *map);
                        }
                        let name = match find_member(map, "name") {
                            Some(JsonValue::String(n)) => n,
                            _ => {
                                return Err(NieError::JsonUnfolding(value.clone()));
                            },
                        };
                        let member_value = match find_member(map, "value") {
                            Some(v) => v,
                            None => {
                                return Err(NieError::JsonUnfolding(value.clone()));
                            },
                        };
                        let new = AttributePath::toplevel().child(name.clone());
                        let ghost nv = new@;
                        assert(nv == seq![name@]);
                        let ghost before = paths_view(acc@);
                        acc.push(new.clone());
                        assert(paths_view(acc@) == before.push(nv));
                        match unfold_attributes(acc, new, member_value, reject_broken) {
                            Ok(a) => {
                                let ghost sub = unfold_value(nv, member_value@, reject_broken)->Ok_0;
                                proof {
                                    lemma_prepend_prepend(
                                        added,
                                        seq![nv] + sub,
                                        unfold_flake_elems(value@, elems, reject_broken, i + 1),
                                    );
                                    assert(before.push(nv) + sub == acc0 + (added + (seq![nv] + sub)));
                                    added = added + (seq![nv] + sub);
                                }
                                acc = a;
                            },
                            Err(e) => {
                                return Err(e);
                            },
                        }
                    },
                    _ => {
                        return Err(NieError::JsonUnfolding(value.clone()));
                    },
                }
                i = i + 1;
            }
            assert(added + Seq::<Seq<Seq<char>>>::empty() == added);
            Ok(acc)
        },
        _ => Err(NieError::JsonUnfolding(value.clone())),
    }
}

/// The abstract value of a [`NixFile`].
pub struct NixFileView {
    pub checkout: CheckoutView,
    pub filename: Option<Seq<char>>,
    pub eval_args: EvalArgsView,
    pub cached_attributes: Map<Seq<Seq<char>>, bool>,
}

/// A .nix file of a checkout, with the arguments it is evaluated with and what is known of its
/// attributes.
pub struct NixFile {
    checkout: Checkout,
    filename: Option<String>,
    cached_attributes: Registry<AttributePath, bool>,
    eval_args: EvalArgs,
}

impl View for NixFile {
    type V = NixFileView;

    closed spec fn view(&self) -> NixFileView {
        NixFileView {
            checkout: self.checkout@,
            filename: opt_view(self.filename),
            eval_args: self.eval_args@,
            cached_attributes: self.cached_attributes@,
        }
    }
}

impl Clone for NixFile {
    fn clone(&self) -> (r: Self)
        ensures
            r@ == self@,
    {
        NixFile {
            checkout: self.checkout.clone(),
            filename: crate::text::clone_opt(&self.filename),
            cached_attributes: self.cached_attributes.duplicate(),
            eval_args: self.eval_args.clone(),
        }
    }
}

impl RegistryValue for NixFile {
    fn duplicate(&self) -> (r: Self) {
        self.clone()
    }
}

/// The path of a file of a checkout: the file, or the checkout's directory where no file is
/// named.
pub open spec fn file_path(checkout_path: Seq<char>, filename: Option<Seq<char>>) -> Seq<char> {
    match filename {
        Some(f) => path_join(checkout_path, f),
        None => checkout_path,
    }
}

/// The file that is expected to hold the expression: the named file, `default.nix` otherwise.
pub open spec fn expected_file_path(checkout_path: Seq<char>, filename: Option<Seq<char>>) -> Seq<char> {
    match filename {
        Some(f) => path_join(checkout_path, f),
        None => path_join(checkout_path, "default.nix"@),
    }
}

/// The evaluation arguments of a file: flake compatibility is switched on where the checkout
/// has a `flake.nix` but not the expected file.
pub open spec fn settled_eval_args(e: EvalArgsView, flake_exists: bool, expected_exists: bool) -> EvalArgsView {
    EvalArgsView { flake_compat: e.flake_compat || (flake_exists && !expected_exists), ..e }
}

/// The arguments of the `nix-instantiate` that lists the attributes of a file, down to `depth`.
pub open spec fn attributes_args(discover_expr: Seq<char>, path: Seq<char>, depth: nat) -> Seq<Seq<char>> {
    seq![
        "--eval"@,
        "--raw"@,
        "-E"@,
        discover_expr,
        "--arg"@,
        "path"@,
        path,
        "--arg"@,
        "maxdepth"@,
        decimal(depth),
    ]
}

/// The evaluation arguments of an opened file: flake compatibility is settled (see
/// [`settled_eval_args`]); without it, `is_lambda` tells whether the expected file holds a lambda.
pub open spec fn opened_eval_args(
    e: EvalArgsView,
    flake_exists: bool,
    expected_exists: bool,
    is_lambda: bool,
) -> EvalArgsView {
    let s = settled_eval_args(e, flake_exists, expected_exists);
    if s.flake_compat {
        s
    } else {
        EvalArgsView { is_lambda, ..s }
    }
}

/// The key under which a file of a checkout is registered.
pub open spec fn file_key(
    checkout: CheckoutView,
    filename: Option<Seq<char>>,
    e: EvalArgsView,
) -> (NixFileReferenceView, EvalArgsView) {
    (NixFileReferenceView { repository: checkout.repository, filename }, e)
}

/// The file that opening gives: nothing known of its attributes yet.
pub open spec fn opened_file(
    checkout: CheckoutView,
    filename: Option<Seq<char>>,
    e: EvalArgsView,
    flake_exists: bool,
    expected_exists: bool,
    is_lambda: bool,
) -> NixFileView {
    NixFileView {
        checkout,
        filename,
        eval_args: opened_eval_args(e, flake_exists, expected_exists, is_lambda),
        cached_attributes: Map::empty(),
    }
}

/// Opening a file that was not opened before gives the file of [`opened_file`] and registers it
/// under its key, so that opening it again with the same key finds it without asking the
/// file system: flake compatibility is on where it was asked for or where the checkout has a
/// `flake.nix` but not the expected file, and without it the file is a lambda exactly where
/// Nix said so.
pub proof fn law_file_opened_once(
    files: Map<(NixFileReferenceView, EvalArgsView), NixFileView>,
    checkout: CheckoutView,
    filename: Option<Seq<char>>,
    e: EvalArgsView,
    flake_exists: bool,
    expected_exists: bool,
    is_lambda: bool,
)
    ensures
        ({
            let f = opened_file(checkout, filename, e, flake_exists, expected_exists, is_lambda);
            let after = files.insert(file_key(checkout, filename, e), f);
            &&& after.contains_key(file_key(checkout, filename, e))
            &&& after[file_key(checkout, filename, e)] == f
            &&& f.eval_args.flake_compat == (e.flake_compat || (flake_exists && !expected_exists))
            &&& !f.eval_args.flake_compat ==> f.eval_args.is_lambda == is_lambda
        }),
{
}

/// What is known of whether the file `f` has `attr`: its own answer if it has one, else the
/// answer shared under its reference and evaluation arguments in `answers`.
pub open spec fn known_attribute_of(
    answers: Map<(NixFileReferenceView, EvalArgsView), NixFileView>,
    f: NixFileView,
    attr: Seq<Seq<char>>,
) -> Option<bool> {
    let key = file_key(f.checkout, f.filename, f.eval_args);
    if f.cached_attributes.contains_key(attr) {
        Some(f.cached_attributes[attr])
    } else if answers.contains_key(key) && answers[key].cached_attributes.contains_key(attr) {
        Some(answers[key].cached_attributes[attr])
    } else {
        None
    }
}

/// The shared answers after remembering that `f` has `attr` or not: the file shared under its
/// key (or `f` where none is) with that answer added.
pub open spec fn answers_after(
    answers: Map<(NixFileReferenceView, EvalArgsView), NixFileView>,
    f: NixFileView,
    attr: Seq<Seq<char>>,
    found: bool,
) -> Map<(NixFileReferenceView, EvalArgsView), NixFileView> {
    let key = file_key(f.checkout, f.filename, f.eval_args);
    let base = if answers.contains_key(key) {
        answers[key]
    } else {
        f
    };
    answers.insert(key, NixFileView { cached_attributes: base.cached_attributes.insert(attr, found), ..base })
}

/// An answer is seen by every copy of the file: once one copy `f` remembered whether the file
/// has `attr` (see [`NixFile::remember_shared`]), every copy with the same reference and
/// evaluation arguments that has no answer of its own knows it (see
/// [`NixFile::known_attribute`]), and need not ask Nix again.
pub proof fn law_answer_seen_by_every_copy(
    answers: Map<(NixFileReferenceView, EvalArgsView), NixFileView>,
    f: NixFileView,
    attr: Seq<Seq<char>>,
    found: bool,
    other: NixFileView,
)
    requires
        file_key(other.checkout, other.filename, other.eval_args) == file_key(f.checkout, f.filename, f.eval_args),
        !other.cached_attributes.contains_key(attr),
    ensures
        known_attribute_of(answers_after(answers, f, attr, found), other, attr) == Some(found),
{
}

impl NixFile {
    /// The file registered under the key of `filename` of `checkout` with `eval_args`, if it was
    /// opened before.
    pub fn cached(
        files: &Registry<(NixFileReference, EvalArgs), NixFile>,
        checkout: &Checkout,
        filename: &Option<String>,
        eval_args: &EvalArgs,
    ) -> (r: Option<NixFile>)
        ensures
            match r {
                Some(f) => files@.contains_key(file_key(checkout@, opt_view(*filename), eval_args@))
                    && f@ == files@[file_key(checkout@, opt_view(*filename), eval_args@)],
                None => !files@.contains_key(file_key(checkout@, opt_view(*filename), eval_args@)),
            },
    {
        let key = Self::key(checkout, filename, eval_args);
        files.lookup(&key)
    }

    /// The path that the file `filename` of `checkout` has (see [`file_path`]).
    pub fn path_in(checkout: &Checkout, filename: &Option<String>) -> (r: String)
        ensures
            r@ == file_path(checkout@.path, opt_view(*filename)),
    {
        match filename {
            Some(f) => join_path(checkout.path().as_str(), f.as_str()),
            None => owned(checkout.path().as_str()),
        }
    }

    /// Opens the file `filename` of `checkout` with `eval_args`, given whether the checkout has
    /// a `flake.nix`, whether the expected file exists (see [`NixFile::expected_file`]), whether
    /// it holds a lambda (asked only without flake compatibility) and whether the file's path
    /// (see [`NixFile::path_in`]) exists. The file is registered in `files` under its key (see
    /// [`law_file_opened_once`]); a file whose path does not exist is an error, and nothing is
    /// registered.
    pub fn new(
        files: &mut Registry<(NixFileReference, EvalArgs), NixFile>,
        checkout: Checkout,
        filename: Option<String>,
        eval_args: EvalArgs,
        flake_exists: bool,
        expected_exists: bool,
        is_lambda: bool,
        path_exists: bool,
    ) -> (r: Result<NixFile, NieError>)
        ensures
            path_exists ==> (r matches Ok(f) && f@ == opened_file(
                checkout@,
                opt_view(filename),
                eval_args@,
                flake_exists,
                expected_exists,
                is_lambda,
            ) && final(files)@ == old(files)@.insert(
                file_key(checkout@, opt_view(filename), eval_args@),
                f@,
            )),
            !path_exists ==> (r matches Err(NieError::NixFileNotFound(name, dir)) && name@ == (
            match opt_view(filename) {
                Some(n) => n,
                None => Seq::empty(),
            }) && dir@ == checkout@.path && final(files)@ == old(files)@),
    {
        let key = Self::key(&checkout, &filename, &eval_args);
        let mut e = Self::settle_eval_args(eval_args, flake_exists, expected_exists);
        if !e.flake_compat {
            e.is_lambda = is_lambda;
        }
        let file = Self::open(checkout, filename, e);
        if !path_exists {
            return Err(file.not_found_error());
        }
        files.store(key, file.clone());
        Ok(file)
    }

    /// The file `filename` of `checkout` (its directory where `None`), evaluated with
    /// `eval_args`; nothing is known of its attributes yet.
    pub fn open(checkout: Checkout, filename: Option<String>, eval_args: EvalArgs) -> (r: Self)
        ensures
            r@.checkout == checkout@,
            r@.filename == opt_view(filename),
            r@.eval_args == eval_args@,
            r@.cached_attributes == Map::<Seq<Seq<char>>, bool>::empty(),
    {
        NixFile { checkout, filename, cached_attributes: Registry::new(), eval_args }
    }

    /// The key under which a file is registered: the reference of the file and the evaluation
    /// arguments it was asked for with.
    pub fn key(checkout: &Checkout, filename: &Option<String>, eval_args: &EvalArgs) -> (r: (
        NixFileReference,
        EvalArgs,
    ))
        ensures
            r.0@ == (NixFileReferenceView { repository: checkout@.repository, filename: opt_view(*filename) }),
            r.1@ == eval_args@,
    {
        (checkout.repository().with_filename(crate::text::clone_opt(filename)), eval_args.clone())
    }

    /// The `flake.nix` of a checkout.
    pub fn flake_file(checkout_path: &str) -> (r: String)
        ensures
            r@ == path_join(checkout_path@, "flake.nix"@),
    {
        join_path(checkout_path, "flake.nix")
    }

    /// The file expected to hold the expression (see [`expected_file_path`]).
    pub fn expected_file(checkout_path: &str, filename: &Option<String>) -> (r: String)
        ensures
            r@ == expected_file_path(checkout_path@, opt_view(*filename)),
    {
        match filename {
            Some(f) => join_path(checkout_path, f.as_str()),
            None => join_path(checkout_path, "default.nix"),
        }
    }

    /// The evaluation arguments of a file, given whether its checkout has a `flake.nix` and
    /// whether the expected file exists (see [`settled_eval_args`]).
    pub fn settle_eval_args(eval_args: EvalArgs, flake_exists: bool, expected_exists: bool) -> (r: EvalArgs)
        ensures
            r@ == settled_eval_args(eval_args@, flake_exists, expected_exists),
    {
        let mut e = eval_args;
        e.flake_compat = e.flake_compat || (flake_exists && !expected_exists);
        e
    }

    /// Whether the file is evaluated through the flake compatibility layer.
    pub fn flake_compat(&self) -> (r: bool)
        ensures
            r == self@.eval_args.flake_compat,
    {
        self.eval_args.flake_compat
    }

    /// The arguments the file is evaluated with.
    pub fn eval_args(&self) -> (r: EvalArgs)
        ensures
            r@ == self@.eval_args,
    {
        self.eval_args.clone()
    }

    /// The checkout that holds the file.
    pub fn checkout(&self) -> (r: Checkout)
        ensures
            r@ == self@.checkout,
    {
        self.checkout.clone()
    }

    /// The reference that names the file.
    pub fn reference(&self) -> (r: NixFileReference)
        ensures
            r@ == (NixFileReferenceView {
                repository: self@.checkout.repository,
                filename: self@.filename,
            }),
    {
        self.checkout.repository().with_filename(crate::text::clone_opt(&self.filename))
    }

    /// The path of the file (see [`file_path`]).
    pub fn path(&self) -> (r: String)
        ensures
            r@ == file_path(self@.checkout.path, self@.filename),
    {
        match &self.filename {
            Some(f) => join_path(self.checkout.path().as_str(), f.as_str()),
            None => owned(self.checkout.path().as_str()),
        }
    }

    /// The error for a file that does not exist: its name (empty where none is named) and the
    /// directory of its checkout.
    pub fn not_found_error(&self) -> (r: NieError)
        ensures
            r matches NieError::NixFileNotFound(f, d) && f@ == (match self@.filename {
                Some(n) => n,
                None => Seq::empty(),
            }) && d@ == self@.checkout.path,
    {
        let f = match &self.filename {
            Some(n) => n.clone(),
            None => String::new(),
        };
        NieError::NixFileNotFound(f, self.checkout.path().clone())
    }

    /// What is known of whether the file has `attr`.
    pub fn cached_attribute(&self, attr: &AttributePath) -> (r: Option<bool>)
        ensures
            match r {
                Some(b) => self@.cached_attributes.contains_key(attr@) && b == self@.cached_attributes[attr@],
                None => !self@.cached_attributes.contains_key(attr@),
            },
    {
        self.cached_attributes.lookup(attr)
    }

    /// Remembers whether the file has `attr`.
    pub fn remember_attribute(&mut self, attr: AttributePath, found: bool)
        ensures
            final(self)@ == (NixFileView {
                cached_attributes: old(self)@.cached_attributes.insert(attr@, found),
                ..old(self)@
            }),
    {
        self.cached_attributes.store(attr, found);
    }

    /// What is known of whether the file has `attr`, from this copy or from the answers shared
    /// by all copies (see [`known_attribute_of`]).
    pub fn known_attribute(
        answers: &Registry<(NixFileReference, EvalArgs), NixFile>,
        file: &NixFile,
        attr: &AttributePath,
    ) -> (r: Option<bool>)
        ensures
            r == known_attribute_of(answers@, file@, attr@),
    {
        match file.cached_attribute(attr) {
            Some(found) => Some(found),
            None => {
                let key = (file.reference(), file.eval_args());
                match answers.lookup(&key) {
                    Some(shared) => shared.cached_attribute(attr),
                    None => None,
                }
            },
        }
    }

    /// Remembers whether the file has `attr`, on this copy and in the answers shared by all
    /// copies (see [`answers_after`] and [`law_answer_seen_by_every_copy`]).
    pub fn remember_shared(
        answers: &mut Registry<(NixFileReference, EvalArgs), NixFile>,
        file: &mut NixFile,
        attr: AttributePath,
        found: bool,
    )
        ensures
            final(file)@ == (NixFileView {
                cached_attributes: old(file)@.cached_attributes.insert(attr@, found),
                ..old(file)@
            }),
            final(answers)@ == answers_after(old(answers)@, old(file)@, attr@, found),
    {
        let key = (file.reference(), file.eval_args());
        let mut shared = match answers.lookup(&key) {
            Some(s) => s,
            None => file.clone(),
        };
        shared.remember_attribute(attr.clone(), found);
        file.remember_attribute(attr, found);
        answers.store(key, shared);
    }

    /// The invocations that ask whether the file has `attr` (see [`has_attribute()`]).
    pub fn has_attribute_invocations(
        &self,
        attr: &AttributePath,
        compat_expr: &str,
        current_system: Option<&str>,
    ) -> (r: (Invocation, Invocation))
        requires
            !self@.eval_args.flake_compat && self@.eval_args.is_lambda && self@.eval_args.system == Some(
                None::<Seq<char>>,
            ) ==> current_system is Some,
        ensures
            r.0.program@ == "nix-instantiate"@,
            crate::location::attribute_path::strings_view(r.0.args@) == has_attribute_check_args(
                file_path(self@.checkout.path, self@.filename),
                self@.eval_args,
            ),
            r.1.program@ == "nix-instantiate"@,
            crate::location::attribute_path::strings_view(r.1.args@) == has_attribute_query_args(
                file_path(self@.checkout.path, self@.filename),
                attr@,
                self@.eval_args,
                compat_expr@,
                opt_view_str(current_system),
            ),
    {
        let p = self.path();
        has_attribute(p.as_str(), attr, &self.eval_args, compat_expr, current_system)
    }

    /// The invocation that lists the attributes of the file down to `depth` through the
    /// discovery expression `discover_expr`; it prints a JSON value.
    pub fn attributes_invocation(&self, discover_expr: &str, depth: u32) -> (r: Invocation)
        ensures
            r.program@ == "nix-instantiate"@,
            crate::location::attribute_path::strings_view(r.args@) == attributes_args(
                discover_expr@,
                file_path(self@.checkout.path, self@.filename),
                depth as nat,
            ),
    {
        let p = self.path();
        let d = decimal_string(depth as u64);
        let mut args: Vec<String> = Vec::new();
        args.push(owned("--eval"));
        args.push(owned("--raw"));
        args.push(owned("-E"));
        args.push(owned(discover_expr));
        args.push(owned("--arg"));
        args.push(owned("path"));
        args.push(p);
        args.push(owned("--arg"));
        args.push(owned("maxdepth"));
        args.push(d);
        assert(crate::location::attribute_path::strings_view(args@) =~= attributes_args(
            discover_expr@,
            file_path(self@.checkout.path, self@.filename),
            depth as nat,
        ));
        Invocation { program: owned("nix-instantiate"), args }
    }

    /// The attribute paths that the discovery expression printed (see
    /// [`NixFile::discovered_attributes`]), read as JSON (see [`parse_json`]); text that is not
    /// JSON is an error.
    pub fn attributes_from_output(&self, printed: &str, reject_broken: bool) -> (r: Result<
        Vec<AttributePath>,
        NieError,
    >)
        ensures
            match spec_json_value(printed@) {
                None => r matches Err(NieError::Json(_)),
                Some(v) => unfolded(
                    Seq::empty(),
                    if self@.eval_args.flake_compat {
                        unfold_flake(v, reject_broken)
                    } else {
                        unfold_value(Seq::empty(), v, reject_broken)
                    },
                    r,
                ),
            },
    {
        match parse_json(printed) {
            Ok(value) => self.discovered_attributes(&value, reject_broken),
            Err(e) => Err(NieError::Json(e)),
        }
    }

    /// The attribute paths that the discovered value lists: through [`unfold_flake`] for a
    /// file evaluated through the flake compatibility layer, through [`unfold_value`] below the
    /// toplevel otherwise.
    pub fn discovered_attributes(&self, value: &JsonValue, reject_broken: bool) -> (r: Result<
        Vec<AttributePath>,
        NieError,
    >)
        ensures
            unfolded(
                Seq::empty(),
                if self@.eval_args.flake_compat {
                    unfold_flake(value@, reject_broken)
                } else {
                    unfold_value(Seq::empty(), value@, reject_broken)
                },
                r,
            ),
    {
        let acc: Vec<AttributePath> = Vec::new();
        assert(paths_view(acc@) == Seq::<Seq<Seq<char>>>::empty());
        if self.eval_args.flake_compat {
            unfold_attributes_flake(acc, value, reject_broken)
        } else {
            unfold_attributes(acc, AttributePath::toplevel(), value, reject_broken)
        }
    }
}

/// The paths at which an output is looked for in place of `attr`: below each common location,
/// `default` where `attr` is the toplevel, `attr` itself where it was found missing
/// (`attr_found` is `Some(false)`); none otherwise, also where asking for `attr` failed.
pub open spec fn output_candidates_of(
    attr: Seq<Seq<char>>,
    attr_found: Option<bool>,
    common: Seq<Seq<Seq<char>>>,
) -> Seq<Seq<Seq<char>>> {
    if attr.len() == 0 {
        common.map_values(|l: Seq<Seq<char>>| l.push("default"@))
    } else if attr_found == Some(false) {
        common.map_values(|l: Seq<Seq<char>>| l + attr)
    } else {
        Seq::empty()
    }
}

/// The first candidate from number `i` on that was found, of those that were asked for.
pub open spec fn first_found(cands: Seq<Seq<Seq<char>>>, found: Seq<bool>, i: int) -> Option<Seq<Seq<char>>>
    decreases cands.len() - i,
{
    if i < 0 || i >= cands.len() || i >= found.len() {
        None
    } else if found[i] {
        Some(cands[i])
    } else {
        first_found(cands, found, i + 1)
    }
}

/// The output path chosen: the first candidate that was found, `attr` itself where none was.
pub open spec fn chosen_output(attr: Seq<Seq<char>>, cands: Seq<Seq<Seq<char>>>, found: Seq<bool>) -> Seq<
    Seq<char>,
> {
    match first_found(cands, found, 0) {
        Some(c) => c,
        None => attr,
    }
}

impl NixFile {
    /// The paths at which an output is looked for in place of `attr` (see
    /// [`output_candidates_of`]); `attr_found` tells whether the file has `attr`, `None` where
    /// asking failed or was not needed.
    pub fn output_candidates(attr: &AttributePath, attr_found: Option<bool>, common: &[AttributePath]) -> (r: Vec<
        AttributePath,
    >)
        ensures
            paths_view(r@) == output_candidates_of(attr@, attr_found, paths_view(common@)),
    {
        let toplevel = attr.is_toplevel();
        let mut r: Vec<AttributePath> = Vec::new();
        if !toplevel && attr_found != Some(false) {
            assert(paths_view(r@) =~= output_candidates_of(attr@, attr_found, paths_view(common@)));
            return r;
        }
        let mut i: usize = 0;
        while i < common.len()
            invariant
                0 <= i <= common@.len(),
                toplevel == (attr@.len() == 0),
                toplevel || attr_found == Some(false),
                paths_view(r@) == output_candidates_of(attr@, attr_found, paths_view(common@)).take(i as int),
            decreases common.len() - i,
        {
            let ghost before = paths_view(r@);
            let c = if toplevel {
                common[i].child(owned("default"))
            } else {
                common[i].join(attr)
            };
            r.push(c);
            assert(paths_view(r@) == before.push(
                output_candidates_of(attr@, attr_found, paths_view(common@))[i as int],
            ));
            assert(output_candidates_of(attr@, attr_found, paths_view(common@)).take(i + 1)
                == output_candidates_of(attr@, attr_found, paths_view(common@)).take(i as int).push(
                output_candidates_of(attr@, attr_found, paths_view(common@))[i as int],
            ));
            i = i + 1;
        }
        assert(output_candidates_of(attr@, attr_found, paths_view(common@)).take(i as int)
            == output_candidates_of(attr@, attr_found, paths_view(common@)));
        r
    }

    /// The output path chosen among the candidates, given whether each of the first
    /// `found.len()` of them was found (see [`chosen_output`]).
    pub fn choose_output(attr: &AttributePath, candidates: &[AttributePath], found: &[bool]) -> (r: AttributePath)
        ensures
            r@ == chosen_output(attr@, paths_view(candidates@), found@),
    {
        let ghost cs = paths_view(candidates@);
        let mut i: usize = 0;
        while i < candidates.len() && i < found.len()
            invariant
                cs == paths_view(candidates@),
                0 <= i <= candidates@.len(),
                first_found(cs, found@, 0) == first_found(cs, found@, i as int),
            decreases candidates.len() - i,
        {
            if found[i] {
                return candidates[i].clone();
            }
            i = i + 1;
        }
        attr.clone()
    }
}

/// The abstract value of an optional string slice.
pub open spec fn opt_view_str(o: Option<&str>) -> Option<Seq<char>> {
    match o {
        Some(s) => Some(s@),
        None => None,
    }
}

/// The attribute paths of a file, handed out one by one.
pub struct AttributeIterator {
    attributes: Vec<AttributePath>,
    pos: usize,
}

impl View for AttributeIterator {
    type V = Seq<Seq<Seq<char>>>;

    /// The paths that are still to come.
    closed spec fn view(&self) -> Seq<Seq<Seq<char>>> {
        paths_view(self.attributes@).skip(self.pos as int)
    }
}

impl AttributeIterator {
    #[verifier::type_invariant]
    spec fn within(self) -> bool {
        self.pos <= self.attributes@.len()
    }

    /// Hands out `attributes` in order.
    pub fn new(attributes: Vec<AttributePath>) -> (r: Self)
        ensures
            r@ == paths_view(attributes@),
    {
        let r = AttributeIterator { attributes, pos: 0 };
        assert(paths_view(r.attributes@).skip(0) == paths_view(r.attributes@));
        r
    }

    /// The next path, if any is left.
    pub fn next(&mut self) -> (r: Option<AttributePath>)
        ensures
            old(self)@.len() == 0 ==> r is None && final(self)@ == old(self)@,
            old(self)@.len() > 0 ==> (r matches Some(a) && a@ == old(self)@[0]) && final(self)@ == old(
                self,
            )@.drop_first(),
    {
        proof {
            use_type_invariant(&*self);
        }
        if self.pos < self.attributes.len() {
            let a = self.attributes[self.pos].clone();
            let ghost before = self@;
            self.pos = self.pos + 1;
            assert(self@ == before.drop_first());
            Some(a)
        } else {
            None
        }
    }
}

} // verus!
