//! The arguments with which Nix fetches repositories.
//!
//! Each repository is described to the fetching expression by a JSON object: the fetch
//! arguments of its reference, each read as JSON, and the fields that its location implies.
use vstd::prelude::*;

use crate::error::NieError;
use crate::json::{json_compact, json_string, spec_json_compact, spec_json_string};
use crate::location::attribute_path::strings_view;
use crate::location::fetch_args::{
    insert_entry, keys_sorted, lemma_insert_largest, lemma_lookup_insert, lookup_entry, pairs_view, FetchArgs,
};
use crate::location::repo_location::LocationView;
use crate::location::repo_reference::RepositoryReferenceView;
use crate::location::{RepositoryLocation, RepositoryReference};
use crate::nix::{canonicalize_url, is_local_url, Invocation};
use crate::text::{join, lemma_join_push, owned, push_str};

verus! {

broadcast use vstd::seq_lib::group_seq_properties;

/// The fetch arguments with each value read as JSON and rendered compactly; `None` if some
/// value is not JSON.
pub open spec fn json_args(e: Seq<(Seq<char>, Seq<char>)>) -> Option<Seq<(Seq<char>, Seq<char>)>>
    decreases e.len(),
{
    if e.len() == 0 {
        Some(Seq::empty())
    } else {
        match spec_json_compact(e[0].1) {
            None => None,
            Some(t) => match json_args(e.drop_first()) {
                Some(rest) => Some(seq![(e[0].0, t)] + rest),
                None => None,
            },
        }
    }
}

/// `(name, JSON string of value)`.
pub open spec fn field(name: Seq<char>, value: Seq<char>) -> (Seq<char>, Seq<char>) {
    (name, spec_json_string(value))
}

/// The field for an optional value.
pub open spec fn optional_field(name: Seq<char>, value: Option<Seq<char>>) -> Seq<
    (Seq<char>, Seq<char>),
> {
    match value {
        Some(v) => seq![field(name, v)],
        None => Seq::empty(),
    }
}

/// The fields that a location implies, in the order in which they are set; `git_url` is the URL
/// used for a git location.
pub open spec fn location_fields(l: LocationView, git_url: Seq<char>) -> Seq<
    (Seq<char>, Seq<char>),
> {
    match l {
        LocationView::LocalFile(_) => Seq::empty(),
        LocationView::Git(_) => seq![field("fetchType"@, "git"@), field("url"@, git_url)],
        LocationView::Tarball(u) => seq![field("fetchType"@, "tarball"@), field("url"@, u)],
        LocationView::Forgejo(d, o, r, g) => seq![
            field("fetchType"@, "forgejo"@),
            field("domain"@, d),
            field("owner"@, o),
            field("repo"@, r),
        ] + optional_field("ref"@, g),
        LocationView::Codeberg(o, r, g) => seq![
            field("fetchType"@, "forgejo"@),
            field("domain"@, "codeberg.org"@),
            field("owner"@, o),
            field("repo"@, r),
        ] + optional_field("ref"@, g),
        LocationView::Github(o, r, b) => seq![
            field("fetchType"@, "github"@),
            field("owner"@, o),
            field("repo"@, r),
        ] + optional_field("branch"@, b),
    }
}

/// The entries after setting the fields in order.
pub open spec fn insert_all(e: Seq<(Seq<char>, Seq<char>)>, fields: Seq<(Seq<char>, Seq<char>)>) -> Seq<
    (Seq<char>, Seq<char>),
>
    decreases fields.len(),
{
    if fields.len() == 0 {
        e
    } else {
        insert_all(insert_entry(e, fields[0].0, fields[0].1), fields.drop_first())
    }
}

/// `"name":value` of an object member.
pub open spec fn member_text(kv: (Seq<char>, Seq<char>)) -> Seq<char> {
    spec_json_string(kv.0) + seq![':'] + kv.1
}

/// The compact JSON object with the given members, in order.
pub open spec fn object_text(e: Seq<(Seq<char>, Seq<char>)>) -> Seq<char> {
    seq!['{'] + join(e.map_values(|kv: (Seq<char>, Seq<char>)| member_text(kv)), seq![','])
        + seq!['}']
}

/// The URL that fetching uses for a git location: its canonical path for a local URL where that
/// was found (`canonical`), the URL itself otherwise.
pub open spec fn git_url_of(l: LocationView, canonical: Option<Seq<char>>) -> Seq<char> {
    match l {
        LocationView::Git(u) => if is_local_url(u) && canonical is Some {
            canonical.unwrap()
        } else {
            u
        },
        _ => Seq::empty(),
    }
}

/// The JSON object describing a repository to the fetching expression; `None` if a fetch
/// argument is not JSON.
pub open spec fn fetcher_args_text(r: RepositoryReferenceView, canonical: Option<Seq<char>>) -> Option<
    Seq<char>,
> {
    match json_args(r.fetch_args) {
        Some(e) => Some(object_text(insert_all(e, location_fields(r.location, git_url_of(r.location, canonical))))),
        None => None,
    }
}

/// The JSON objects describing the repositories, in order; `None` if a fetch argument of one
/// of them is not JSON.
pub open spec fn fetcher_texts(rs: Seq<RepositoryReferenceView>, canonicals: Seq<Option<Seq<char>>>) -> Option<
    Seq<Seq<char>>,
>
    decreases rs.len(),
{
    if rs.len() == 0 {
        Some(Seq::empty())
    } else {
        match fetcher_args_text(rs[0], canonicals[0]) {
            None => None,
            Some(t) => match fetcher_texts(rs.drop_first(), canonicals.drop_first()) {
                Some(rest) => Some(seq![t] + rest),
                None => None,
            },
        }
    }
}

proof fn lemma_json_args_keys(e: Seq<(Seq<char>, Seq<char>)>)
    ensures
        json_args(e) matches Some(r) ==> r.len() == e.len() && forall|i: int|
            0 <= i < e.len() ==> #[trigger] r[i].0 == e[i].0,
    decreases e.len(),
{
    if e.len() > 0 {
        lemma_json_args_keys(e.drop_first());
        if let Some(r) = json_args(e) {
            let rest = json_args(e.drop_first()).unwrap();
            assert forall|i: int| 0 <= i < e.len() implies #[trigger] r[i].0 == e[i].0 by {
                if i > 0 {
                    assert(r[i] == rest[i - 1]);
                }
            }
        }
    }
}

/// Reads each fetch argument of `args` as JSON (see [`json_args`]), keeping the names.
pub fn fetch_args_json(args: &FetchArgs) -> (r: Result<FetchArgs, NieError>)
    ensures
        match r {
            Ok(f) => json_args(args@) == Some(f@),
            Err(err) => json_args(args@) is None && err is Json,
        },
{
    let entries = args.entries();
    let ghost e = args@;
    let mut out = FetchArgs::new();
    let mut i: usize = 0;
    assert(e.skip(0) == e);
    assert(e.take(0) =~= Seq::<(Seq<char>, Seq<char>)>::empty());
    while i < entries.len()
        invariant
            pairs_view(entries@) == e,
            e == args@,
            keys_sorted(e),
            0 <= i <= e.len(),
            json_args(e.take(i as int)) == Some(out@),
            json_args(e) is None <==> json_args(e.skip(i as int)) is None,
            json_args(e) matches Some(full) ==> json_args(e.skip(i as int)) matches Some(rest)
                && full == out@ + rest,
        decreases entries.len() - i,
    {
        let ghost t = e.skip(i as int);
        assert(t[0] == e[i as int]);
        assert(t.drop_first() == e.skip(i + 1));
        assert(e[i as int] == (entries@[i as int].0@, entries@[i as int].1@));
        proof {
            lemma_json_args_keys(e.take(i as int));
            lemma_json_args_snoc(e.take(i as int), e[i as int]);
            assert(e.take(i as int).push(e[i as int]) == e.take(i + 1));
        }
        match json_compact(entries[i].1.as_str()) {
            Ok(text) => {
                proof {
                    assert forall|j: int| 0 <= j < out@.len() implies crate::text::str_less(
                        #[trigger] out@[j].0,
                        e[i as int].0,
                    ) by {
                        assert(out@[j].0 == e.take(i as int)[j].0);
                        assert(e.take(i as int)[j] == e[j]);
                    }
                    lemma_insert_largest(out@, e[i as int].0, text@);
                }
                out.insert(entries[i].0.clone(), text);
            },
            Err(err) => {
                assert(json_args(t) is None);
                assert(json_args(e) is None);
                let r = NieError::Json(err);
                assert(r is Json);
                return Err(r);
            },
        }
        i = i + 1;
    }
    assert(e.take(e.len() as int) == e);
    Ok(out)
}

proof fn lemma_json_args_snoc(e: Seq<(Seq<char>, Seq<char>)>, x: (Seq<char>, Seq<char>))
    ensures
        json_args(e.push(x)) == match (json_args(e), spec_json_compact(x.1)) {
            (Some(r), Some(t)) => Some(r.push((x.0, t))),
            _ => None,
        },
    decreases e.len(),
{
    if e.len() == 0 {
        assert(e.push(x).drop_first() == e);
        match spec_json_compact(x.1) {
            Some(t) => {
                assert(seq![(x.0, t)] + Seq::<(Seq<char>, Seq<char>)>::empty() == Seq::<
                    (Seq<char>, Seq<char>),
                >::empty().push((x.0, t)));
            },
            None => {},
        }
    } else {
        lemma_json_args_snoc(e.drop_first(), x);
        assert(e.push(x).drop_first() == e.drop_first().push(x));
        assert(e.push(x)[0] == e[0]);
        match (spec_json_compact(e[0].1), json_args(e.drop_first()), spec_json_compact(x.1)) {
            (Some(t0), Some(r), Some(t)) => {
                assert(seq![(e[0].0, t0)] + r.push((x.0, t)) == (seq![(e[0].0, t0)] + r).push(
                    (x.0, t),
                ));
            },
            _ => {},
        }
    }
}

/// Appends `(name, JSON string of value)`.
fn push_field(fields: &mut Vec<(String, String)>, name: &str, value: &str)
    ensures
        pairs_view(final(fields)@) == pairs_view(old(fields)@).push(field(name@, value@)),
{
    let ghost before = pairs_view(fields@);
    fields.push((owned(name), json_string(value)));
    assert(pairs_view(fields@) == before.push(field(name@, value@)));
}

/// The fields that a location implies (see [`location_fields`]).
fn location_fields_of(l: &RepositoryLocation, git_url: &str) -> (r: Vec<(String, String)>)
    ensures
        pairs_view(r@) == location_fields(l@, git_url@),
{
    let mut f: Vec<(String, String)> = Vec::new();
    match l {
        RepositoryLocation::LocalFile(_) => {},
        RepositoryLocation::Git(_) => {
            push_field(&mut f, "fetchType", "git");
            push_field(&mut f, "url", git_url);
        },
        RepositoryLocation::Tarball(u) => {
            push_field(&mut f, "fetchType", "tarball");
            push_field(&mut f, "url", u.as_str());
        },
        RepositoryLocation::Forgejo(d, o, r, g) => {
            push_field(&mut f, "fetchType", "forgejo");
            push_field(&mut f, "domain", d.as_str());
            push_field(&mut f, "owner", o.as_str());
            push_field(&mut f, "repo", r.as_str());
            let ghost before = pairs_view(f@);
            if let Some(g) = g {
                push_field(&mut f, "ref", g.as_str());
            }
            assert(pairs_view(f@) == before + optional_field("ref"@, crate::text::opt_view(*g)));
        },
        RepositoryLocation::Codeberg(o, r, g) => {
            push_field(&mut f, "fetchType", "forgejo");
            push_field(&mut f, "domain", "codeberg.org");
            push_field(&mut f, "owner", o.as_str());
            push_field(&mut f, "repo", r.as_str());
            let ghost before = pairs_view(f@);
            if let Some(g) = g {
                push_field(&mut f, "ref", g.as_str());
            }
            assert(pairs_view(f@) == before + optional_field("ref"@, crate::text::opt_view(*g)));
        },
        RepositoryLocation::Github(o, r, b) => {
            push_field(&mut f, "fetchType", "github");
            push_field(&mut f, "owner", o.as_str());
            push_field(&mut f, "repo", r.as_str());
            let ghost before = pairs_view(f@);
            if let Some(b) = b {
                push_field(&mut f, "branch", b.as_str());
            }
            assert(pairs_view(f@) == before + optional_field("branch"@, crate::text::opt_view(*b)));
        },
    }
    f
}

/// The compact JSON object with the members of `args`, in order.
fn object_text_of(args: &FetchArgs) -> (r: String)
    ensures
        r@ == object_text(args@),
{
    let entries = args.entries();
    let ghost e = args@;
    let ghost pieces = e.map_values(|kv: (Seq<char>, Seq<char>)| member_text(kv));
    proof {
        reveal_strlit("{");
        reveal_strlit("}");
        reveal_strlit(",");
        reveal_strlit(":");
    }
    let mut s = owned("{");
    let mut i: usize = 0;
    while i < entries.len()
        invariant
            pairs_view(entries@) == e,
            pieces == e.map_values(|kv: (Seq<char>, Seq<char>)| member_text(kv)),
            0 <= i <= e.len(),
            s@ == seq!['{'] + join(pieces.take(i as int), seq![',']),
        decreases entries.len() - i,
    {
        proof {
            reveal_strlit(",");
            reveal_strlit(":");
            lemma_join_push(pieces.take(i as int), pieces[i as int], seq![',']);
            assert(pieces.take(i as int).push(pieces[i as int]) == pieces.take(i + 1));
        }
        assert(e[i as int] == (entries@[i as int].0@, entries@[i as int].1@));
        if i > 0 {
            push_str(&mut s, ",");
        }
        let k = json_string(entries[i].0.as_str());
        push_str(&mut s, k.as_str());
        push_str(&mut s, ":");
        push_str(&mut s, entries[i].1.as_str());
        i = i + 1;
    }
    assert(pieces.take(e.len() as int) == pieces);
    push_str(&mut s, "}");
    s
}

impl RepositoryReference {
    /// The fetch arguments, each value read as JSON and rendered compactly (see
    /// [`json_args`]); fails with the JSON error of the first value that is not JSON.
    pub fn fetch_args_json(&self) -> (r: Result<FetchArgs, NieError>)
        ensures
            match r {
                Ok(f) => json_args(self.fetch_args@) == Some(f@),
                Err(e) => json_args(self.fetch_args@) is None && e is Json,
            },
    {
        fetch_args_json(&self.fetch_args)
    }
}

/// The JSON object describing `reference` to the fetching expression (see
/// [`fetcher_args_text`]); `canonical` is the canonical path of a local git URL, where it was
/// found. Local directories are not fetched through evaluation.
pub fn location_to_fetcher_args(reference: &RepositoryReference, canonical: Option<&str>) -> (r:
    Result<String, NieError>)
    requires
        !(reference.location is LocalFile),
    ensures
        match r {
            Ok(t) => fetcher_args_text(reference@, match canonical {
                Some(c) => Some(c@),
                None => None,
            }) == Some(t@),
            Err(e) => fetcher_args_text(reference@, match canonical {
                Some(c) => Some(c@),
                None => None,
            }) is None && e is Json,
        },
{
    let mut args = match reference.fetch_args_json() {
        Ok(a) => a,
        Err(e) => return Err(e),
    };
    let git_url = match &reference.location {
        RepositoryLocation::Git(u) => canonicalize_url(u.as_str(), canonical),
        _ => String::new(),
    };
    let fields = location_fields_of(&reference.location, git_url.as_str());
    let ghost fv = pairs_view(fields@);
    let ghost e0 = args@;
    let mut i: usize = 0;
    assert(fv.skip(0) == fv);
    while i < fields.len()
        invariant
            fv == pairs_view(fields@),
            0 <= i <= fv.len(),
            insert_all(e0, fv) == insert_all(args@, fv.skip(i as int)),
        decreases fields.len() - i,
    {
        assert(fv.skip(i as int)[0] == fv[i as int]);
        assert(fv.skip(i as int).drop_first() == fv.skip(i + 1));
        assert(fv[i as int] == (fields@[i as int].0@, fields@[i as int].1@));
        args.insert(fields[i].0.clone(), fields[i].1.clone());
        i = i + 1;
    }
    assert(fv.skip(i as int).len() == 0);
    Ok(object_text_of(&args))
}

/// The arguments of the `nix-instantiate` that fetches all sources: `fetch_expr` is the
/// fetching expression, `sources_json` the JSON array describing the sources.
pub open spec fn fetch_all_args(fetch_expr: Seq<char>, sources_json: Seq<char>) -> Seq<Seq<char>> {
    seq![
        "--eval"@,
        "--raw"@,
        "--expr"@,
        "--log-format"@,
        "bar"@,
        fetch_expr,
        "--argstr"@,
        "sourcesJSON"@,
        sources_json,
    ]
}

/// The compact JSON array of the given texts.
pub open spec fn array_text(items: Seq<Seq<char>>) -> Seq<char> {
    seq!['['] + join(items, seq![',']) + seq![']']
}

/// Fetches repositories into the store through the fetching expression `fetch_expr`, which
/// prints one store path per line (see [`crate::nix::output_paths()`]). `canonicals[i]` is the
/// canonical path of the git URL of `sources[i]`, where it is local and was found.
pub fn fetch_all(sources: &[RepositoryReference], canonicals: &[Option<String>], fetch_expr: &str) -> (r:
    Result<Invocation, NieError>)
    requires
        sources@.len() == canonicals@.len(),
        forall|i: int| 0 <= i < sources@.len() ==> !(#[trigger] sources@[i].location is LocalFile),
    ensures
        match r {
            Ok(inv) => fetcher_texts(
                sources@.map_values(|s: RepositoryReference| s@),
                canonicals@.map_values(|c: Option<String>| crate::text::opt_view(c)),
            ) matches Some(items) && inv.program@ == "nix-instantiate"@ && strings_view(inv.args@)
                == fetch_all_args(fetch_expr@, array_text(items)),
            Err(e) => fetcher_texts(
                sources@.map_values(|s: RepositoryReference| s@),
                canonicals@.map_values(|c: Option<String>| crate::text::opt_view(c)),
            ) is None && e is Json,
        },
{
    let ghost rs = sources@.map_values(|s: RepositoryReference| s@);
    let ghost cs = canonicals@.map_values(|c: Option<String>| crate::text::opt_view(c));
    let mut items: Vec<String> = Vec::new();
    let mut i: usize = 0;
    assert(rs.skip(0) == rs);
    assert(cs.skip(0) == cs);
    while i < sources.len()
        invariant
            rs == sources@.map_values(|s: RepositoryReference| s@),
            cs == canonicals@.map_values(|c: Option<String>| crate::text::opt_view(c)),
            sources@.len() == canonicals@.len(),
            forall|j: int| 0 <= j < sources@.len() ==> !(#[trigger] sources@[j].location is LocalFile),
            0 <= i <= rs.len(),
            fetcher_texts(rs, cs) is None <==> fetcher_texts(rs.skip(i as int), cs.skip(i as int)) is None,
            fetcher_texts(rs, cs) matches Some(all) ==> fetcher_texts(rs.skip(i as int), cs.skip(i as int))
                matches Some(rest) && all == strings_view(items@) + rest,
        decreases sources.len() - i,
    {
        assert(rs.skip(i as int)[0] == rs[i as int]);
        assert(cs.skip(i as int)[0] == cs[i as int]);
        assert(rs.skip(i as int).drop_first() == rs.skip(i + 1));
        assert(cs.skip(i as int).drop_first() == cs.skip(i + 1));
        let c: Option<&str> = match &canonicals[i] {
            Some(c) => Some(c.as_str()),
            None => None,
        };
        match location_to_fetcher_args(&sources[i], c) {
            Ok(t) => {
                let ghost before = strings_view(items@);
                items.push(t);
                assert(strings_view(items@) == before.push(t@));
                proof {
                    if let Some(all) = fetcher_texts(rs, cs) {
                        let rest = fetcher_texts(rs.skip(i + 1), cs.skip(i + 1)).unwrap();
                        assert(before + (seq![t@] + rest) == before.push(t@) + rest);
                    }
                }
            },
            Err(e) => {
                return Err(e);
            },
        }
        i = i + 1;
    }
    assert(rs.skip(i as int).len() == 0);
    proof {
        reveal_strlit("[");
        reveal_strlit("]");
        reveal_strlit(",");
    }
    let mut json = owned("[");
    let joined = crate::text::join_str(items.as_slice(), ",");
    push_str(&mut json, joined.as_str());
    push_str(&mut json, "]");
    assert("["@ == seq!['[']);
    assert("]"@ == seq![']']);
    assert(","@ == seq![',']);
    assert(items@.map_values(|p: String| p@) == strings_view(items@));
    assert(json@ == array_text(strings_view(items@)));
    let mut args: Vec<String> = Vec::new();
    args.push(owned("--eval"));
    args.push(owned("--raw"));
    args.push(owned("--expr"));
    args.push(owned("--log-format"));
    args.push(owned("bar"));
    args.push(owned(fetch_expr));
    args.push(owned("--argstr"));
    args.push(owned("sourcesJSON"));
    args.push(json);
    assert(strings_view(args@) =~= fetch_all_args(fetch_expr@, array_text(strings_view(items@))));
    Ok(Invocation { program: owned("nix-instantiate"), args })
}

/// The value of the last of the fields named `k`, if any.
pub open spec fn last_field(fs: Seq<(Seq<char>, Seq<char>)>, k: Seq<char>) -> Option<Seq<char>>
    decreases fs.len(),
{
    if fs.len() == 0 {
        None
    } else {
        match last_field(fs.drop_first(), k) {
            Some(v) => Some(v),
            None => if fs[0].0 == k {
                Some(fs[0].1)
            } else {
                None
            },
        }
    }
}

proof fn lemma_lookup_insert_all(e: Seq<(Seq<char>, Seq<char>)>, fs: Seq<(Seq<char>, Seq<char>)>, k: Seq<char>)
    ensures
        lookup_entry(insert_all(e, fs), k) == match last_field(fs, k) {
            Some(v) => Some(v),
            None => lookup_entry(e, k),
        },
    decreases fs.len(),
{
    if fs.len() > 0 {
        lemma_lookup_insert(e, fs[0].0, fs[0].1, k);
        lemma_lookup_insert_all(insert_entry(e, fs[0].0, fs[0].1), fs.drop_first(), k);
    }
}

proof fn lemma_last_field_unique(fs: Seq<(Seq<char>, Seq<char>)>, k: Seq<char>, i: int)
    requires
        0 <= i < fs.len(),
        fs[i].0 == k,
        forall|j: int| i < j < fs.len() ==> #[trigger] fs[j].0 != k,
    ensures
        last_field(fs, k) == Some(fs[i].1),
    decreases fs.len(),
{
    let t = fs.drop_first();
    if i == 0 {
        lemma_last_field_absent(t, k);
    } else {
        assert forall|j: int| i - 1 < j < t.len() implies #[trigger] t[j].0 != k by {
            assert(t[j] == fs[j + 1]);
        }
        lemma_last_field_unique(t, k, i - 1);
    }
}

/// In a list of at most five fields with the keys the locations use, each in at most one place, the
/// field at `i` is the last of its name.
proof fn lemma_members_at(fs: Seq<(Seq<char>, Seq<char>)>, i: int)
    requires
        0 <= i < fs.len() <= 5,
        forall|a: int, b: int| 0 <= a < b < fs.len() ==> #[trigger] fs[a].0 != #[trigger] fs[b].0,
    ensures
        last_field(fs, fs[i].0) == Some(fs[i].1),
{
    lemma_last_field_unique(fs, fs[i].0, i);
}

proof fn lemma_last_field_absent(fs: Seq<(Seq<char>, Seq<char>)>, k: Seq<char>)
    requires
        forall|j: int| 0 <= j < fs.len() ==> #[trigger] fs[j].0 != k,
    ensures
        last_field(fs, k) is None,
    decreases fs.len(),
{
    if fs.len() > 0 {
        let t = fs.drop_first();
        assert forall|j: int| 0 <= j < t.len() implies #[trigger] t[j].0 != k by {
            assert(t[j] == fs[j + 1]);
        }
        lemma_last_field_absent(t, k);
    }
}

/// The member `k` of the object with members `m` is the JSON string of `v`.
pub open spec fn member_is(m: Seq<(Seq<char>, Seq<char>)>, k: Seq<char>, v: Seq<char>) -> bool {
    lookup_entry(m, k) == Some(spec_json_string(v))
}

/// What the object describing a repository at `l` says of it: how it is fetched and from
/// where. A git location is fetched from its canonical path where it is a local URL and that
/// path was found, from its URL otherwise; a Forgejo location from its own domain, a Codeberg
/// one from `codeberg.org`; a ref or branch is passed where the location names one.
pub open spec fn describes_location(
    m: Seq<(Seq<char>, Seq<char>)>,
    l: LocationView,
    canonical: Option<Seq<char>>,
) -> bool {
    match l {
        LocationView::Git(u) => member_is(m, "fetchType"@, "git"@) && member_is(
            m,
            "url"@,
            if is_local_url(u) && canonical is Some {
                canonical.unwrap()
            } else {
                u
            },
        ),
        LocationView::Tarball(u) => member_is(m, "fetchType"@, "tarball"@) && member_is(m, "url"@, u),
        LocationView::Forgejo(d, o, r, g) => member_is(m, "fetchType"@, "forgejo"@) && member_is(
            m,
            "domain"@,
            d,
        ) && member_is(m, "owner"@, o) && member_is(m, "repo"@, r) && (g matches Some(x) ==> member_is(
            m,
            "ref"@,
            x,
        )),
        LocationView::Codeberg(o, r, g) => member_is(m, "fetchType"@, "forgejo"@) && member_is(
            m,
            "domain"@,
            "codeberg.org"@,
        ) && member_is(m, "owner"@, o) && member_is(m, "repo"@, r) && (g matches Some(x) ==> member_is(
            m,
            "ref"@,
            x,
        )),
        LocationView::Github(o, r, b) => member_is(m, "fetchType"@, "github"@) && member_is(m, "owner"@, o)
            && member_is(m, "repo"@, r) && (b matches Some(x) ==> member_is(m, "branch"@, x)),
        LocationView::LocalFile(_) => true,
    }
}

/// The object describing a repository to the fetching expression describes its location (see
/// [`describes_location`]): whatever the fetch arguments hold, the members that the location
/// implies are those of the location.
pub proof fn law_fetcher_object_describes_location(r: RepositoryReferenceView, canonical: Option<Seq<char>>)
    requires
        json_args(r.fetch_args) is Some,
    ensures
        exists|m: Seq<(Seq<char>, Seq<char>)>|
            fetcher_args_text(r, canonical) == Some(#[trigger] object_text(m)) && describes_location(
                m,
                r.location,
                canonical,
            ),
{
    let e = json_args(r.fetch_args).unwrap();
    let fs = location_fields(r.location, git_url_of(r.location, canonical));
    let m = insert_all(e, fs);
    reveal_strlit("fetchType");
    reveal_strlit("url");
    reveal_strlit("domain");
    reveal_strlit("owner");
    reveal_strlit("repo");
    reveal_strlit("ref");
    reveal_strlit("branch");
    assert("fetchType"@.len() == 9 && "url"@.len() == 3 && "domain"@.len() == 6 && "owner"@.len() == 5
        && "repo"@.len() == 4 && "ref"@.len() == 3 && "branch"@.len() == 6);
    assert("url"@[0] != "ref"@[0]);
    assert("domain"@[0] != "branch"@[0]);
    assert forall|k: Seq<char>| #![trigger lookup_entry(m, k)] lookup_entry(m, k) == match last_field(fs, k) {
        Some(v) => Some(v),
        None => lookup_entry(e, k),
    } by {
        lemma_lookup_insert_all(e, fs, k);
    }
    let gu = git_url_of(r.location, canonical);
    match r.location {
        LocationView::Git(u) => {
            assert(fs =~= seq![field("fetchType"@, "git"@), field("url"@, gu)]);
            lemma_members_at(fs, 0);
            lemma_members_at(fs, 1);
        },
        LocationView::Tarball(u) => {
            assert(fs =~= seq![field("fetchType"@, "tarball"@), field("url"@, u)]);
            lemma_members_at(fs, 0);
            lemma_members_at(fs, 1);
        },
        LocationView::Forgejo(d, o, rp, g) => {
            let base = seq![field("fetchType"@, "forgejo"@), field("domain"@, d), field("owner"@, o), field("repo"@, rp)];
            assert(fs == base + optional_field("ref"@, g));
            lemma_members_at(fs, 0);
            lemma_members_at(fs, 1);
            lemma_members_at(fs, 2);
            lemma_members_at(fs, 3);
            if g is Some {
                lemma_members_at(fs, 4);
            }
        },
        LocationView::Codeberg(o, rp, g) => {
            let base = seq![field("fetchType"@, "forgejo"@), field("domain"@, "codeberg.org"@), field("owner"@, o), field("repo"@, rp)];
            assert(fs == base + optional_field("ref"@, g));
            lemma_members_at(fs, 0);
            lemma_members_at(fs, 1);
            lemma_members_at(fs, 2);
            lemma_members_at(fs, 3);
            if g is Some {
                lemma_members_at(fs, 4);
            }
        },
        LocationView::Github(o, rp, br) => {
            let base = seq![field("fetchType"@, "github"@), field("owner"@, o), field("repo"@, rp)];
            assert(fs == base + optional_field("branch"@, br));
            lemma_members_at(fs, 0);
            lemma_members_at(fs, 1);
            lemma_members_at(fs, 2);
            if br is Some {
                lemma_members_at(fs, 3);
            }
        },
        LocationView::LocalFile(_) => {},
    }
    assert(describes_location(m, r.location, canonical));
    assert(fetcher_args_text(r, canonical) == Some(object_text(m)));
}

} // verus!
