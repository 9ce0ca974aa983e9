//! Laws relating the resource identifiers of references to the references they name.
use vstd::prelude::*;

use crate::aliases::AliasesView;
use crate::location::attribute_path::{
    attribute_path_from, attribute_path_text, is_proper_prefix,
};
use crate::location::fetch_args::{insert_entry, keys_sorted, lemma_insert_largest};
use crate::location::file_reference::{filename_text, NixFileReferenceView};
use crate::location::reference::{
    apply_token, apply_tokens, attribute_text, parse_reference, reference_at, reference_text,
    NixReferenceView,
};
use crate::location::repo_location::{
    has_tarball_suffix, location_text, parse_location, parse_owner_repo, ref_suffix, LocationView,
};
use crate::location::repo_reference::{args_text, RepositoryReferenceView};
use crate::location::{
    RES_PREFIX_CODEBERG, RES_PREFIX_FORGEJO, RES_PREFIX_GIT, RES_PREFIX_GITHUB, RES_PREFIX_LOCAL,
    RES_PREFIX_TAR,
};
use crate::text::{
    join, lemma_concat_contains, lemma_join_contains, lemma_join_split, lemma_not_starts_with,
    lemma_split_join, lemma_split_once_at, lemma_split_once_none, lemma_strip_prefix_concat,
    lookup_first, split_char, split_once, ends_with, starts_with,
};

verus! {

broadcast use vstd::seq_lib::group_seq_properties;

/// A piece of an identifier that holds no separator `/` and no `#`.
pub open spec fn plain_segment(s: Seq<char>) -> bool {
    !s.contains('/') && !s.contains('#')
}

/// An optional git ref without `#`.
pub open spec fn plain_ref(g: Option<Seq<char>>) -> bool {
    match g {
        Some(b) => !b.contains('#'),
        None => true,
    }
}

/// A location whose identifier reads back as the location: not a tarball (whose identifier
/// carries the prefix `tar://`, which is not read), and owners, repositories and domains
/// without `/`.
pub open spec fn location_reads_back(l: LocationView) -> bool {
    match l {
        LocationView::Git(_) => true,
        LocationView::LocalFile(_) => true,
        LocationView::Tarball(_) => false,
        LocationView::Forgejo(d, o, r, _) => !d.contains('/') && !o.contains('/') && !r.contains('/'),
        LocationView::Codeberg(o, r, _) => !o.contains('/') && !r.contains('/'),
        LocationView::Github(o, r, _) => !o.contains('/') && !r.contains('/'),
    }
}

/// A location whose identifier reads back as the location within a resource identifier: it
/// reads back on its own (see [`location_reads_back`]) and no part holds `#`, which separates
/// the tokens of an identifier.
pub open spec fn location_roundtrips(l: LocationView) -> bool {
    match l {
        LocationView::Git(u) => !u.contains('#'),
        LocationView::LocalFile(p) => !p.contains('#'),
        LocationView::Tarball(_) => false,
        LocationView::Forgejo(d, o, r, g) => plain_segment(d) && plain_segment(o) && plain_segment(
            r,
        ) && plain_ref(g),
        LocationView::Codeberg(o, r, g) => plain_segment(o) && plain_segment(r) && plain_ref(g),
        LocationView::Github(o, r, b) => plain_segment(o) && plain_segment(r) && plain_ref(b),
    }
}

/// An attribute path whose text reads back as the path: the toplevel, or components without
/// `.`, `#` and `=` that are not a single empty component.
pub open spec fn attribute_roundtrips(a: Seq<Seq<char>>) -> bool {
    a.len() == 0 || ((forall|i: int|
        0 <= i < a.len() ==> !(#[trigger] a[i]).contains('.') && !a[i].contains('#')
            && !a[i].contains('=')) && !(a.len() == 1 && a[0].len() == 0))
}

/// A file name without `#`.
pub open spec fn filename_roundtrips(f: Option<Seq<char>>) -> bool {
    match f {
        Some(x) => !x.contains('#'),
        None => true,
    }
}

/// Fetch arguments that read back: sorted names without `#` and `=` that are not `f` or
/// `file`, values without `#`.
pub open spec fn args_roundtrip(e: Seq<(Seq<char>, Seq<char>)>) -> bool {
    keys_sorted(e) && forall|i: int|
        0 <= i < e.len() ==> !(#[trigger] e[i]).0.contains('#') && !e[i].0.contains('=') && e[i].0
            != "f"@ && e[i].0 != "file"@ && !e[i].1.contains('#')
}

/// A reference whose identifier reads back as the reference, given the aliases in force: its
/// parts read back, and the identifier of its location is no alias.
pub open spec fn reference_roundtrips(r: NixReferenceView, aliases: AliasesView) -> bool {
    &&& location_roundtrips(r.file.repository.location)
    &&& attribute_roundtrips(r.attribute)
    &&& filename_roundtrips(r.file.filename)
    &&& args_roundtrip(r.file.repository.fetch_args)
    &&& lookup_first(aliases, location_text(r.file.repository.location)) is None
}

proof fn reveal_prefixes()
    ensures
        RES_PREFIX_CODEBERG@ == seq!['c', 'o', 'd', 'e', 'b', 'e', 'r', 'g', ':', '/', '/'],
        RES_PREFIX_GITHUB@ == seq!['g', 'i', 't', 'h', 'u', 'b', ':', '/', '/'],
        RES_PREFIX_FORGEJO@ == seq!['f', 'o', 'r', 'g', 'e', 'j', 'o', ':', '/', '/'],
        RES_PREFIX_LOCAL@ == seq!['f', 'i', 'l', 'e', ':', '/', '/'],
        RES_PREFIX_GIT@ == seq!['g', 'i', 't', ':', '/', '/'],
{
    reveal_strlit("codeberg://");
    reveal_strlit("github://");
    reveal_strlit("forgejo://");
    reveal_strlit("file://");
    reveal_strlit("git://");
}

/// `owner/repo[/ref]` reads back as its parts.
proof fn lemma_owner_repo_roundtrip(o: Seq<char>, r: Seq<char>, g: Option<Seq<char>>)
    requires
        !o.contains('/'),
        !r.contains('/'),
    ensures
        parse_owner_repo(o + seq!['/'] + r + ref_suffix(g)) == Some((o, r, g)),
{
    let rest = r + ref_suffix(g);
    assert(o + seq!['/'] + r + ref_suffix(g) == o + seq!['/'] + rest);
    lemma_split_once_at(o, '/', rest);
    match g {
        Some(b) => {
            assert(rest == r + seq!['/'] + b);
            lemma_split_once_at(r, '/', b);
        },
        None => {
            assert(rest == r);
            lemma_split_once_none(r, '/');
        },
    }
}

/// The identifier of a location reads back as the location, whatever the file system shows.
pub proof fn law_location_roundtrip(l: LocationView, local_dir: bool)
    requires
        location_reads_back(l),
    ensures
        parse_location(location_text(l), local_dir) == Some(l),
{
    reveal_prefixes();
    let s = location_text(l);
    match l {
        LocationView::Git(u) => {
            lemma_not_starts_with(s, RES_PREFIX_CODEBERG@, 0);
            lemma_not_starts_with(s, RES_PREFIX_GITHUB@, 3);
            lemma_not_starts_with(s, RES_PREFIX_FORGEJO@, 0);
            lemma_not_starts_with(s, RES_PREFIX_LOCAL@, 0);
            lemma_strip_prefix_concat(RES_PREFIX_GIT@, u);
        },
        LocationView::LocalFile(p) => {
            lemma_not_starts_with(s, RES_PREFIX_CODEBERG@, 0);
            lemma_not_starts_with(s, RES_PREFIX_GITHUB@, 0);
            lemma_not_starts_with(s, RES_PREFIX_FORGEJO@, 1);
            lemma_strip_prefix_concat(RES_PREFIX_LOCAL@, p);
        },
        LocationView::Tarball(_) => {},
        LocationView::Forgejo(d, o, r, g) => {
            lemma_not_starts_with(s, RES_PREFIX_CODEBERG@, 0);
            lemma_not_starts_with(s, RES_PREFIX_GITHUB@, 0);
            let rest2 = o + seq!['/'] + r + ref_suffix(g);
            let rest = d + seq!['/'] + rest2;
            assert(s == RES_PREFIX_FORGEJO@ + rest);
            lemma_strip_prefix_concat(RES_PREFIX_FORGEJO@, rest);
            lemma_split_once_at(d, '/', rest2);
            lemma_owner_repo_roundtrip(o, r, g);
        },
        LocationView::Codeberg(o, r, g) => {
            let rest = o + seq!['/'] + r + ref_suffix(g);
            assert(s == RES_PREFIX_CODEBERG@ + rest);
            lemma_strip_prefix_concat(RES_PREFIX_CODEBERG@, rest);
            lemma_owner_repo_roundtrip(o, r, g);
        },
        LocationView::Github(o, r, b) => {
            lemma_not_starts_with(s, RES_PREFIX_CODEBERG@, 0);
            let rest = o + seq!['/'] + r + ref_suffix(b);
            assert(s == RES_PREFIX_GITHUB@ + rest);
            lemma_strip_prefix_concat(RES_PREFIX_GITHUB@, rest);
            lemma_owner_repo_roundtrip(o, r, b);
        },
    }
}

/// `#t` for each token `t`, in order.
pub open spec fn hashed(ts: Seq<Seq<char>>) -> Seq<char>
    decreases ts.len(),
{
    if ts.len() == 0 {
        Seq::empty()
    } else {
        seq!['#'] + ts[0] + hashed(ts.drop_first())
    }
}

proof fn lemma_hashed_append(x: Seq<Seq<char>>, y: Seq<Seq<char>>)
    ensures
        hashed(x + y) == hashed(x) + hashed(y),
    decreases x.len(),
{
    if x.len() == 0 {
        assert(x + y == y);
    } else {
        lemma_hashed_append(x.drop_first(), y);
        assert((x + y).drop_first() == x.drop_first() + y);
        assert((x + y)[0] == x[0]);
    }
}

proof fn lemma_join_hashed(l: Seq<char>, ts: Seq<Seq<char>>)
    ensures
        join(seq![l] + ts, seq!['#']) == l + hashed(ts),
    decreases ts.len(),
{
    let all = seq![l] + ts;
    if ts.len() == 0 {
        assert(all == seq![l]);
    } else {
        lemma_join_hashed(ts[0], ts.drop_first());
        assert(ts == seq![ts[0]] + ts.drop_first());
        assert(all.drop_first() == ts);
        assert(all[0] == l);
    }
}

/// The token `key=value` of a fetch argument.
pub open spec fn arg_token(kv: (Seq<char>, Seq<char>)) -> Seq<char> {
    kv.0 + seq!['='] + kv.1
}

/// The tokens of the fetch arguments.
pub open spec fn arg_tokens(e: Seq<(Seq<char>, Seq<char>)>) -> Seq<Seq<char>> {
    e.map_values(|kv: (Seq<char>, Seq<char>)| arg_token(kv))
}

proof fn lemma_args_hashed(e: Seq<(Seq<char>, Seq<char>)>)
    ensures
        args_text(e) == hashed(arg_tokens(e)),
    decreases e.len(),
{
    if e.len() > 0 {
        lemma_args_hashed(e.drop_first());
        assert(arg_tokens(e).drop_first() == arg_tokens(e.drop_first()));
        assert(arg_tokens(e)[0] == arg_token(e[0]));
    }
}

/// The token of an attribute path, if it is shown.
pub open spec fn attribute_tokens(a: Seq<Seq<char>>) -> Seq<Seq<char>> {
    if a.len() == 0 {
        Seq::empty()
    } else {
        seq![attribute_path_text(a)]
    }
}

/// The token of a file name, if any.
pub open spec fn file_tokens(f: Option<Seq<char>>) -> Seq<Seq<char>> {
    match f {
        Some(x) => seq!["file="@ + x],
        None => Seq::empty(),
    }
}

/// The tokens after the location in the identifier of a reference.
pub open spec fn reference_tokens(r: NixReferenceView) -> Seq<Seq<char>> {
    attribute_tokens(r.attribute) + file_tokens(r.file.filename) + arg_tokens(
        r.file.repository.fetch_args,
    )
}

proof fn lemma_reference_text_tokens(r: NixReferenceView)
    ensures
        reference_text(r) == join(
            seq![location_text(r.file.repository.location)] + reference_tokens(r),
            seq!['#'],
        ),
{
    let l = location_text(r.file.repository.location);
    let at = attribute_tokens(r.attribute);
    let ft = file_tokens(r.file.filename);
    let gt = arg_tokens(r.file.repository.fetch_args);
    lemma_join_hashed(l, reference_tokens(r));
    lemma_hashed_append(at + ft, gt);
    lemma_hashed_append(at, ft);
    lemma_args_hashed(r.file.repository.fetch_args);
    reveal_strlit("#file=");
    reveal_strlit("file=");
    if r.attribute.len() > 0 {
        assert(hashed(at).len() == 1 + attribute_path_text(r.attribute).len());
        assert(hashed(at) == attribute_text(r.attribute));
    } else {
        assert(hashed(at) == attribute_text(r.attribute));
    }
    match r.file.filename {
        Some(x) => {
            assert(ft[0] == "file="@ + x);
            assert(ft.drop_first().len() == 0);
            assert(hashed(ft.drop_first()) == Seq::<char>::empty());
            assert(hashed(ft) == seq!['#'] + ("file="@ + x) + Seq::<char>::empty());
            assert(hashed(ft) == filename_text(r.file.filename));
        },
        None => {
            assert(hashed(ft) == filename_text(r.file.filename));
        },
    }
}

proof fn lemma_location_text_plain(l: LocationView)
    requires
        location_roundtrips(l),
    ensures
        !location_text(l).contains('#'),
{
    reveal_prefixes();
    let slash = seq!['/'];
    assert(!slash.contains('#'));
    match l {
        LocationView::Git(u) => {
            assert(!RES_PREFIX_GIT@.contains('#'));
            lemma_concat_contains(RES_PREFIX_GIT@, u, '#');
        },
        LocationView::LocalFile(p) => {
            assert(!RES_PREFIX_LOCAL@.contains('#'));
            lemma_concat_contains(RES_PREFIX_LOCAL@, p, '#');
        },
        LocationView::Tarball(_) => {},
        LocationView::Forgejo(d, o, r, g) => {
            assert(!RES_PREFIX_FORGEJO@.contains('#'));
            lemma_ref_suffix_plain(g);
            lemma_concat_contains(RES_PREFIX_FORGEJO@, d, '#');
            lemma_concat_contains(RES_PREFIX_FORGEJO@ + d, slash, '#');
            lemma_concat_contains(RES_PREFIX_FORGEJO@ + d + slash, o, '#');
            lemma_concat_contains(RES_PREFIX_FORGEJO@ + d + slash + o, slash, '#');
            lemma_concat_contains(RES_PREFIX_FORGEJO@ + d + slash + o + slash, r, '#');
            lemma_concat_contains(RES_PREFIX_FORGEJO@ + d + slash + o + slash + r, ref_suffix(g), '#');
        },
        LocationView::Codeberg(o, r, g) => {
            assert(!RES_PREFIX_CODEBERG@.contains('#'));
            lemma_ref_suffix_plain(g);
            lemma_concat_contains(RES_PREFIX_CODEBERG@, o, '#');
            lemma_concat_contains(RES_PREFIX_CODEBERG@ + o, slash, '#');
            lemma_concat_contains(RES_PREFIX_CODEBERG@ + o + slash, r, '#');
            lemma_concat_contains(RES_PREFIX_CODEBERG@ + o + slash + r, ref_suffix(g), '#');
        },
        LocationView::Github(o, r, b) => {
            assert(!RES_PREFIX_GITHUB@.contains('#'));
            lemma_ref_suffix_plain(b);
            lemma_concat_contains(RES_PREFIX_GITHUB@, o, '#');
            lemma_concat_contains(RES_PREFIX_GITHUB@ + o, slash, '#');
            lemma_concat_contains(RES_PREFIX_GITHUB@ + o + slash, r, '#');
            lemma_concat_contains(RES_PREFIX_GITHUB@ + o + slash + r, ref_suffix(b), '#');
        },
    }
}

proof fn lemma_ref_suffix_plain(g: Option<Seq<char>>)
    requires
        plain_ref(g),
    ensures
        !ref_suffix(g).contains('#'),
{
    if let Some(b) = g {
        lemma_concat_contains(seq!['/'], b, '#');
    }
}

proof fn lemma_apply_tokens_append(r: NixReferenceView, x: Seq<Seq<char>>, y: Seq<Seq<char>>)
    ensures
        apply_tokens(r, x + y) == apply_tokens(apply_tokens(r, x), y),
    decreases x.len(),
{
    if x.len() == 0 {
        assert(x + y == y);
    } else {
        lemma_apply_tokens_append(apply_token(r, x[0]), x.drop_first(), y);
        assert((x + y).drop_first() == x.drop_first() + y);
        assert((x + y)[0] == x[0]);
    }
}

/// The reference `r` with the fetch arguments `e`.
pub open spec fn with_fetch_args(r: NixReferenceView, e: Seq<(Seq<char>, Seq<char>)>) -> NixReferenceView {
    NixReferenceView {
        file: NixFileReferenceView {
            repository: RepositoryReferenceView {
                location: r.file.repository.location,
                fetch_args: e,
            },
            filename: r.file.filename,
        },
        attribute: r.attribute,
    }
}

proof fn lemma_apply_args(r: NixReferenceView, e: Seq<(Seq<char>, Seq<char>)>, i: int)
    requires
        args_roundtrip(e),
        0 <= i <= e.len(),
        r.file.repository.fetch_args == e.take(i),
    ensures
        apply_tokens(r, arg_tokens(e).skip(i)) == with_fetch_args(r, e),
    decreases e.len() - i,
{
    let ts = arg_tokens(e).skip(i);
    if i == e.len() {
        assert(ts.len() == 0);
        assert(e.take(i) == e);
    } else {
        reveal_strlit("f");
        reveal_strlit("file");
        let kv = e[i];
        assert(ts[0] == arg_token(kv));
        assert(!kv.0.contains('='));
        lemma_split_once_at(kv.0, '=', kv.1);
        assert forall|j: int| 0 <= j < e.take(i).len() implies crate::text::str_less(
            #[trigger] e.take(i)[j].0,
            kv.0,
        ) by {
            assert(e.take(i)[j] == e[j]);
        }
        lemma_insert_largest(e.take(i), kv.0, kv.1);
        assert(e.take(i).push(kv) == e.take(i + 1));
        let r1 = apply_token(r, ts[0]);
        assert(r1 == with_fetch_args(r, e.take(i + 1)));
        assert(ts.drop_first() == arg_tokens(e).skip(i + 1));
        lemma_apply_args(r1, e, i + 1);
    }
}

/// Reading back the resource identifier of a reference gives the reference, whatever the file
/// system shows, provided that its parts hold no separators that would split them differently
/// (see [`reference_roundtrips`]) and that the identifier of its location is no alias.
pub proof fn law_reference_roundtrip(r: NixReferenceView, aliases: AliasesView, local_dir: bool)
    requires
        reference_roundtrips(r, aliases),
    ensures
        parse_reference(reference_text(r), aliases, local_dir) == Some(r),
{
    let l = r.file.repository.location;
    let lt = location_text(l);
    let ts = reference_tokens(r);
    let at = attribute_tokens(r.attribute);
    let ft = file_tokens(r.file.filename);
    let e = r.file.repository.fetch_args;
    let gt = arg_tokens(e);
    lemma_reference_text_tokens(r);
    lemma_location_text_plain(l);
    reveal_strlit("file=");
    // No token holds '#'.
    let all = seq![lt] + ts;
    let dot = seq!['.'];
    assert(!dot.contains('#'));
    if r.attribute.len() > 0 {
        lemma_join_contains(r.attribute, dot, '#');
        lemma_join_contains(r.attribute, dot, '=');
        assert(!dot.contains('='));
    }
    assert forall|i: int| 0 <= i < all.len() implies !(#[trigger] all[i]).contains('#') by {
        if i > 0 {
            let t = ts[i - 1];
            assert(all[i] == t);
            if i - 1 < at.len() {
                assert(t == attribute_path_text(r.attribute));
            } else if i - 1 < at.len() + ft.len() {
                let x = r.file.filename.unwrap();
                assert(t == "file="@ + x);
                assert(!"file="@.contains('#'));
                lemma_concat_contains("file="@, x, '#');
            } else {
                let k = i - 1 - at.len() - ft.len();
                assert(t == gt[k]);
                assert(gt[k] == arg_token(e[k]));
                lemma_concat_contains(e[k].0, seq!['='], '#');
                lemma_concat_contains(e[k].0 + seq!['='], e[k].1, '#');
            }
        }
    }
    lemma_split_join(all, '#');
    let tokens = split_char(reference_text(r), '#');
    assert(tokens == all);
    assert(tokens[0] == lt);
    assert(tokens.drop_first() == ts);
    law_location_roundtrip(l, local_dir);
    let start = reference_at(l);
    // The attribute token.
    let r1 = apply_tokens(start, at);
    if r.attribute.len() > 0 {
        let t = attribute_path_text(r.attribute);
        lemma_split_once_none(t, '=');
        assert forall|i: int| 0 <= i < r.attribute.len() implies !(
        #[trigger] r.attribute[i]).contains('.') by {}
        lemma_split_join(r.attribute, '.');
        if r.attribute.len() == 1 {
            assert(t == r.attribute[0]);
        } else {
            assert(t.len() > 0);
        }
        assert(attribute_path_from(t) == r.attribute);
        assert(at[0] == t);
        assert(at.drop_first().len() == 0);
        assert(apply_tokens(apply_token(start, t), at.drop_first()) == apply_token(start, t));
        assert(r1 == apply_token(start, t));
    }
    assert(r1.attribute == r.attribute);
    assert(r1.file.filename is None);
    assert(r1.file.repository.location == l);
    assert(r1.file.repository.fetch_args.len() == 0);
    // The file token.
    let r2 = apply_tokens(r1, ft);
    match r.file.filename {
        Some(x) => {
            assert("file="@ == seq!['f', 'i', 'l', 'e'] + seq!['=']);
            assert(!seq!['f', 'i', 'l', 'e'].contains('='));
            lemma_split_once_at(seq!['f', 'i', 'l', 'e'], '=', x);
            assert("file="@ + x == seq!['f', 'i', 'l', 'e'] + seq!['='] + x);
            reveal_strlit("file");
            assert(seq!['f', 'i', 'l', 'e'] == "file"@);
            assert(ft[0] == "file="@ + x);
            assert(ft.drop_first().len() == 0);
            assert(apply_tokens(apply_token(r1, ft[0]), ft.drop_first()) == apply_token(r1, ft[0]));
            assert(r2 == apply_token(r1, "file="@ + x));
        },
        None => {},
    }
    assert(r2.attribute == r.attribute);
    assert(r2.file.filename == r.file.filename);
    assert(r2.file.repository.location == l);
    assert(r2.file.repository.fetch_args == e.take(0));
    // The fetch argument tokens.
    lemma_apply_args(r2, e, 0);
    assert(gt.skip(0) == gt);
    lemma_apply_tokens_append(start, at + ft, gt);
    lemma_apply_tokens_append(start, at, ft);
    assert(with_fetch_args(r2, e) == r);
}

/// The text of the attribute path that a string names is that string.
pub proof fn law_attribute_text_of_path(s: Seq<char>)
    ensures
        attribute_path_text(attribute_path_from(s)) == s,
{
    if s.len() > 0 {
        lemma_join_split(s, '.');
    }
}

/// The attribute path named by the text of a path is that path, if no component holds `.`
/// and the path is not a single empty component.
pub proof fn law_path_of_attribute_text(p: Seq<Seq<char>>)
    requires
        forall|i: int| 0 <= i < p.len() ==> !(#[trigger] p[i]).contains('.'),
        !(p.len() == 1 && p[0].len() == 0),
    ensures
        attribute_path_from(attribute_path_text(p)) == p,
{
    if p.len() > 0 {
        lemma_split_join(p, '.');
        if p.len() == 1 {
            assert(attribute_path_text(p) == p[0]);
        } else {
            assert(attribute_path_text(p).len() > 0);
        }
    }
}

/// The parent of a child of `p` is `p`: the child is a direct and an indirect child of `p`,
/// one component deeper.
pub proof fn law_child_parent(p: Seq<Seq<char>>, name: Seq<char>)
    ensures
        p.push(name).len() == p.len() + 1,
        p.push(name).drop_last() == p,
        is_proper_prefix(p, p.push(name)),
{
    assert(p.push(name).take(p.len() as int) == p);
}

/// `q` is an indirect parent of `p` exactly when it is the parent of `p` or an indirect parent
/// of the parent of `p`.
pub proof fn law_indirect_child_unfolds(p: Seq<Seq<char>>, q: Seq<Seq<char>>)
    ensures
        is_proper_prefix(q, p) <==> (p.len() > 0 && p.drop_last() == q) || (p.len() > 0
            && is_proper_prefix(q, p.drop_last())),
{
    if p.len() > 0 {
        if is_proper_prefix(q, p) && q.len() < p.len() - 1 {
            assert(p.drop_last().take(q.len() as int) == p.take(q.len() as int));
        }
        if is_proper_prefix(q, p.drop_last()) {
            assert(p.drop_last().take(q.len() as int) == p.take(q.len() as int));
        }
        if is_proper_prefix(q, p) && q.len() == p.len() - 1 {
            assert(p.take(q.len() as int) == p.drop_last());
        }
    }
}

/// Indirect parenthood is transitive.
pub proof fn law_indirect_child_transitive(a: Seq<Seq<char>>, b: Seq<Seq<char>>, c: Seq<Seq<char>>)
    requires
        is_proper_prefix(b, a),
        is_proper_prefix(c, b),
    ensures
        is_proper_prefix(c, a),
{
    assert(a.take(c.len() as int) == a.take(b.len() as int).take(c.len() as int));
}

/// Whether `s` ends with the name of a tarball: `.tar`, `.tar.gz`, `.tar.xz` or `.tar.bz2`.
pub open spec fn names_tarball(s: Seq<char>) -> bool {
    ||| ends_with(s, seq!['.', 't', 'a', 'r'])
    ||| ends_with(s, seq!['.', 't', 'a', 'r', '.', 'g', 'z'])
    ||| ends_with(s, seq!['.', 't', 'a', 'r', '.', 'x', 'z'])
    ||| ends_with(s, seq!['.', 't', 'a', 'r', '.', 'b', 'z', '2'])
}

proof fn lemma_https_has_no_other_prefix(s: Seq<char>)
    requires
        starts_with(s, seq!['h', 't', 't', 'p', 's', ':', '/', '/']),
    ensures
        strip_prefix_none_all(s),
{
    reveal_prefixes();
    assert(s.take(8)[0] == s[0]);
    assert(s[0] == 'h');
    lemma_not_starts_with(s, RES_PREFIX_CODEBERG@, 0);
    lemma_not_starts_with(s, RES_PREFIX_GITHUB@, 0);
    lemma_not_starts_with(s, RES_PREFIX_FORGEJO@, 0);
    lemma_not_starts_with(s, RES_PREFIX_LOCAL@, 0);
    lemma_not_starts_with(s, RES_PREFIX_GIT@, 0);
}

/// `s` has none of the forge, file and git prefixes.
pub open spec fn strip_prefix_none_all(s: Seq<char>) -> bool {
    &&& crate::text::strip_prefix(s, RES_PREFIX_CODEBERG@) is None
    &&& crate::text::strip_prefix(s, RES_PREFIX_GITHUB@) is None
    &&& crate::text::strip_prefix(s, RES_PREFIX_FORGEJO@) is None
    &&& crate::text::strip_prefix(s, RES_PREFIX_LOCAL@) is None
    &&& crate::text::strip_prefix(s, RES_PREFIX_GIT@) is None
}

/// An `https://` URL that names a tarball (see [`names_tarball`]) is a tarball location,
/// whatever the file system shows; any other `https://` URL is a git URL, or a local directory
/// where the file system shows one.
pub proof fn law_https_tarballs(s: Seq<char>, local_dir: bool)
    requires
        starts_with(s, seq!['h', 't', 't', 'p', 's', ':', '/', '/']),
    ensures
        names_tarball(s) ==> parse_location(s, local_dir) == Some(LocationView::Tarball(s)),
        !names_tarball(s) ==> parse_location(s, local_dir) == Some(
            if local_dir {
                LocationView::LocalFile(s)
            } else {
                LocationView::Git(s)
            },
        ),
{
    lemma_https_has_no_other_prefix(s);
    reveal_strlit("https://");
    reveal_strlit(".tar");
    reveal_strlit(".tar.gz");
    reveal_strlit(".tar.xz");
    reveal_strlit(".tar.bz2");
    assert(RES_PREFIX_TAR@ == seq!['h', 't', 't', 'p', 's', ':', '/', '/']);
    assert(starts_with(s, RES_PREFIX_TAR@));
    assert(".tar"@ =~= seq!['.', 't', 'a', 'r']);
    assert(".tar.gz"@ =~= seq!['.', 't', 'a', 'r', '.', 'g', 'z']);
    assert(".tar.xz"@ =~= seq!['.', 't', 'a', 'r', '.', 'x', 'z']);
    assert(".tar.bz2"@ =~= seq!['.', 't', 'a', 'r', '.', 'b', 'z', '2']);
    assert(names_tarball(s) == has_tarball_suffix(s));
}

} // verus!
