//! Local checkouts of repositories, and how a list of repositories is fetched.
use vstd::prelude::*;

use crate::error::NieError;
use crate::location::repo_reference::RepositoryReferenceView;
use crate::location::RepositoryReference;
use crate::registry::{Registry, RegistryValue};

verus! {

broadcast use vstd::seq_lib::group_seq_properties;

/// The abstract value of a [`Checkout`].
pub struct CheckoutView {
    pub repository: RepositoryReferenceView,
    pub path: Seq<char>,
}

/// Local checkout of a repository: the reference it was fetched from and the directory that
/// holds it.
#[derive(Debug)]
pub struct Checkout {
    repository: RepositoryReference,
    path: String,
}

impl View for Checkout {
    type V = CheckoutView;

    closed spec fn view(&self) -> CheckoutView {
        CheckoutView { repository: self.repository@, path: self.path@ }
    }
}

impl Clone for Checkout {
    fn clone(&self) -> (r: Self)
        ensures
            r@ == self@,
    {
        Checkout { repository: self.repository.clone(), path: self.path.clone() }
    }
}

impl RegistryValue for Checkout {
    fn duplicate(&self) -> (r: Self) {
        self.clone()
    }
}

impl Checkout {
    /// The checkout of `repository` in the directory `path`.
    pub fn new(repository: RepositoryReference, path: String) -> (r: Self)
        ensures
            r@ == (CheckoutView { repository: repository@, path: path@ }),
    {
        Checkout { repository, path }
    }

    /// The reference this checkout was fetched from.
    pub fn repository(&self) -> (r: &RepositoryReference)
        ensures
            r@ == self@.repository,
    {
        &self.repository
    }

    /// The directory that holds the checkout.
    pub fn path(&self) -> (r: &String)
        ensures
            r@ == self@.path,
    {
        &self.path
    }
}

/// How a repository of a list is obtained.
pub enum FetchSource {
    /// It was fetched before; this is its checkout.
    Known(Checkout),
    /// It is a local directory, to be fetched on its own.
    Local,
    /// It is fetched together with the other remote repositories.
    Remote,
}

/// The abstract value of a [`FetchSource`].
pub enum FetchSourceView {
    Known(CheckoutView),
    Local,
    Remote,
}

impl View for FetchSource {
    type V = FetchSourceView;

    open spec fn view(&self) -> FetchSourceView {
        match self {
            FetchSource::Known(c) => FetchSourceView::Known(c@),
            FetchSource::Local => FetchSourceView::Local,
            FetchSource::Remote => FetchSourceView::Remote,
        }
    }
}

/// How `r` is obtained given the checkouts fetched before: from them if it is known, on its
/// own if it is a local directory, together with the others otherwise.
pub open spec fn fetch_source(known: Map<RepositoryReferenceView, CheckoutView>, r: RepositoryReferenceView) -> FetchSourceView {
    if known.contains_key(r) {
        FetchSourceView::Known(known[r])
    } else if r.location is LocalFile {
        FetchSourceView::Local
    } else {
        FetchSourceView::Remote
    }
}

/// How each repository of the list is obtained (see [`fetch_source`]).
pub open spec fn sources_for(known: Map<RepositoryReferenceView, CheckoutView>, rs: Seq<RepositoryReferenceView>) -> Seq<
    FetchSourceView,
> {
    rs.map_values(|r: RepositoryReferenceView| fetch_source(known, r))
}

/// The abstract values of a list of repositories.
pub open spec fn references_view(rs: Seq<RepositoryReference>) -> Seq<RepositoryReferenceView> {
    rs.map_values(|r: RepositoryReference| r@)
}

/// The abstract values of a list of sources.
pub open spec fn sources_view(ss: Seq<FetchSource>) -> Seq<FetchSourceView> {
    ss.map_values(|s: FetchSource| s@)
}

/// The abstract values of a list of checkouts.
pub open spec fn checkouts_view(cs: Seq<Checkout>) -> Seq<CheckoutView> {
    cs.map_values(|c: Checkout| c@)
}

/// The abstract values of a list of strings.
pub open spec fn texts_view(ps: Seq<String>) -> Seq<Seq<char>> {
    ps.map_values(|p: String| p@)
}

/// The number of local (`local` true) or remote sources.
pub open spec fn count_kind(ss: Seq<FetchSourceView>, local: bool) -> nat
    decreases ss.len(),
{
    if ss.len() == 0 {
        0
    } else {
        (if (local && ss[0] is Local) || (!local && ss[0] is Remote) {
            1nat
        } else {
            0nat
        }) + count_kind(ss.drop_first(), local)
    }
}

/// The checkouts of a list of repositories, in its order: a known one as it was, a local one
/// in the next of the `local` directories, a remote one in the next of the `remote`
/// directories; remote repositories for which no directory is left are dropped.
pub open spec fn assembled(
    rs: Seq<RepositoryReferenceView>,
    ss: Seq<FetchSourceView>,
    local: Seq<Seq<char>>,
    remote: Seq<Seq<char>>,
) -> Seq<CheckoutView>
    decreases ss.len(),
{
    if ss.len() == 0 || rs.len() == 0 {
        Seq::empty()
    } else {
        match ss[0] {
            FetchSourceView::Known(c) => seq![c] + assembled(
                rs.drop_first(),
                ss.drop_first(),
                local,
                remote,
            ),
            FetchSourceView::Local => if local.len() > 0 {
                seq![CheckoutView { repository: rs[0], path: local[0] }] + assembled(
                    rs.drop_first(),
                    ss.drop_first(),
                    local.drop_first(),
                    remote,
                )
            } else {
                assembled(rs.drop_first(), ss.drop_first(), local, remote)
            },
            FetchSourceView::Remote => if remote.len() > 0 {
                seq![CheckoutView { repository: rs[0], path: remote[0] }] + assembled(
                    rs.drop_first(),
                    ss.drop_first(),
                    local,
                    remote.drop_first(),
                )
            } else {
                assembled(rs.drop_first(), ss.drop_first(), local, remote)
            },
        }
    }
}

/// The checkouts fetched anew for the local (`local` true) or the remote repositories of the
/// list, in its order, each in the next of the `paths`; those for which no path is left are
/// dropped.
pub open spec fn fresh(
    rs: Seq<RepositoryReferenceView>,
    ss: Seq<FetchSourceView>,
    paths: Seq<Seq<char>>,
    local: bool,
) -> Seq<CheckoutView>
    decreases ss.len(),
{
    if ss.len() == 0 || rs.len() == 0 {
        Seq::empty()
    } else if ((local && ss[0] is Local) || (!local && ss[0] is Remote)) && paths.len() > 0 {
        seq![CheckoutView { repository: rs[0], path: paths[0] }] + fresh(
            rs.drop_first(),
            ss.drop_first(),
            paths.drop_first(),
            local,
        )
    } else {
        fresh(rs.drop_first(), ss.drop_first(), paths, local)
    }
}

/// The map after storing each checkout under its repository, in order.
pub open spec fn register_all(m: Map<RepositoryReferenceView, CheckoutView>, cs: Seq<CheckoutView>) -> Map<
    RepositoryReferenceView,
    CheckoutView,
>
    decreases cs.len(),
{
    if cs.len() == 0 {
        m
    } else {
        register_all(m.insert(cs[0].repository, cs[0]), cs.drop_first())
    }
}

/// How each repository of the list is obtained, given the checkouts fetched before
/// (see [`fetch_source`]).
pub fn plan_fetch(repositories: &[RepositoryReference], known: &Registry<RepositoryReference, Checkout>) -> (r: Vec<
    FetchSource,
>)
    ensures
        r@.len() == repositories@.len(),
        forall|i: int|
            0 <= i < r@.len() ==> (#[trigger] r@[i])@ == fetch_source(known@, repositories@[i]@),
        sources_view(r@) == sources_for(known@, references_view(repositories@)),
{
    let mut r: Vec<FetchSource> = Vec::new();
    let mut i: usize = 0;
    while i < repositories.len()
        invariant
            0 <= i <= repositories@.len(),
            r@.len() == i,
            forall|j: int| 0 <= j < i ==> (#[trigger] r@[j])@ == fetch_source(known@, repositories@[j]@),
        decreases repositories.len() - i,
    {
        let source = match known.lookup(&repositories[i]) {
            Some(c) => FetchSource::Known(c),
            None => match &repositories[i].location {
                crate::location::RepositoryLocation::LocalFile(_) => FetchSource::Local,
                _ => FetchSource::Remote,
            },
        };
        r.push(source);
        i = i + 1;
    }
    assert(sources_view(r@) =~= sources_for(known@, references_view(repositories@)));
    r
}

/// The error for a failed fetch of the remote repositories: the repository itself if it was
/// the only one, their number otherwise.
pub fn remote_fetch_failure(remote: &[RepositoryReference]) -> (r: NieError)
    ensures
        remote@.len() == 1 ==> (r matches NieError::FetchFailure(x) && x@ == remote@[0]@),
        remote@.len() != 1 ==> (r matches NieError::FetchFailureMultiple(n) && n == remote@.len()),
{
    if remote.len() == 1 {
        NieError::FetchFailure(remote[0].clone())
    } else {
        NieError::FetchFailureMultiple(remote.len())
    }
}

/// The repositories whose source is remote, in order.
pub open spec fn remote_subsequence(rs: Seq<RepositoryReferenceView>, ss: Seq<FetchSourceView>) -> Seq<
    RepositoryReferenceView,
>
    decreases ss.len(),
{
    if ss.len() == 0 || rs.len() == 0 {
        Seq::empty()
    } else {
        (if ss[0] is Remote {
            seq![rs[0]]
        } else {
            Seq::empty()
        }) + remote_subsequence(rs.drop_first(), ss.drop_first())
    }
}

/// The remote repositories of the list, in order.
pub fn remote_repositories(repositories: &[RepositoryReference], sources: &[FetchSource]) -> (r: Vec<
    RepositoryReference,
>)
    requires
        sources@.len() == repositories@.len(),
    ensures
        references_view(r@) == remote_subsequence(references_view(repositories@), sources_view(sources@)),
{
    let ghost rs = references_view(repositories@);
    let ghost ss = sources_view(sources@);
    let mut r: Vec<RepositoryReference> = Vec::new();
    let mut i: usize = 0;
    assert(rs.skip(0) == rs);
    assert(ss.skip(0) == ss);
    while i < repositories.len()
        invariant
            sources@.len() == repositories@.len(),
            rs == references_view(repositories@),
            ss == sources_view(sources@),
            0 <= i <= repositories@.len(),
            remote_subsequence(rs, ss) == references_view(r@) + remote_subsequence(rs.skip(i as int), ss.skip(i as int)),
        decreases repositories.len() - i,
    {
        assert(rs.skip(i as int)[0] == rs[i as int]);
        assert(ss.skip(i as int)[0] == ss[i as int]);
        assert(rs.skip(i as int).drop_first() == rs.skip(i + 1));
        assert(ss.skip(i as int).drop_first() == ss.skip(i + 1));
        let ghost before = references_view(r@);
        if let FetchSource::Remote = &sources[i] {
            r.push(repositories[i].clone());
            assert(references_view(r@) == before.push(rs[i as int]));
            assert(before + (seq![rs[i as int]] + remote_subsequence(rs.skip(i + 1), ss.skip(i + 1)))
                == before.push(rs[i as int]) + remote_subsequence(rs.skip(i + 1), ss.skip(i + 1)));
        } else {
            assert(Seq::<RepositoryReferenceView>::empty() + remote_subsequence(rs.skip(i + 1), ss.skip(i + 1))
                == remote_subsequence(rs.skip(i + 1), ss.skip(i + 1)));
        }
        i = i + 1;
    }
    r
}

/// The checkouts of a list of repositories, in its order, once the local and the remote ones
/// were fetched into `local` and `remote` (see [`assembled`]); the checkouts fetched anew are
/// stored in `known`, local ones first.
pub fn assemble(
    repositories: &[RepositoryReference],
    sources: &[FetchSource],
    local: &[String],
    remote: &[String],
    known: &mut Registry<RepositoryReference, Checkout>,
) -> (r: Vec<Checkout>)
    requires
        sources@.len() == repositories@.len(),
    ensures
        checkouts_view(r@) == assembled(
            references_view(repositories@),
            sources_view(sources@),
            texts_view(local@),
            texts_view(remote@),
        ),
        final(known)@ == register_all(
            register_all(
                old(known)@,
                fresh(references_view(repositories@), sources_view(sources@), texts_view(local@), true),
            ),
            fresh(references_view(repositories@), sources_view(sources@), texts_view(remote@), false),
        ),
{
    let ghost rs = references_view(repositories@);
    let ghost ss = sources_view(sources@);
    let ghost lp = texts_view(local@);
    let ghost rp = texts_view(remote@);
    let mut out: Vec<Checkout> = Vec::new();
    let mut i: usize = 0;
    let mut li: usize = 0;
    let mut ri: usize = 0;
    assert(rs.skip(0) == rs);
    assert(ss.skip(0) == ss);
    assert(lp.skip(0) == lp);
    assert(rp.skip(0) == rp);
    while i < repositories.len()
        invariant
            sources@.len() == repositories@.len(),
            rs == references_view(repositories@),
            ss == sources_view(sources@),
            lp == texts_view(local@),
            rp == texts_view(remote@),
            0 <= i <= rs.len(),
            0 <= li <= lp.len(),
            0 <= ri <= rp.len(),
            assembled(rs, ss, lp, rp) == checkouts_view(out@) + assembled(
                rs.skip(i as int),
                ss.skip(i as int),
                lp.skip(li as int),
                rp.skip(ri as int),
            ),
        decreases repositories.len() - i,
    {
        assert(rs.skip(i as int)[0] == rs[i as int]);
        assert(ss.skip(i as int)[0] == ss[i as int]);
        assert(rs.skip(i as int).drop_first() == rs.skip(i + 1));
        assert(ss.skip(i as int).drop_first() == ss.skip(i + 1));
        let ghost before = checkouts_view(out@);
        let ghost rest = assembled(rs.skip(i as int), ss.skip(i as int), lp.skip(li as int), rp.skip(ri as int));
        match &sources[i] {
            FetchSource::Known(c) => {
                out.push(c.clone());
                assert(checkouts_view(out@) == before.push(c@));
                assert(rest == seq![c@] + assembled(rs.skip(i + 1), ss.skip(i + 1), lp.skip(li as int), rp.skip(ri as int)));
                assert(before + rest == checkouts_view(out@) + assembled(rs.skip(i + 1), ss.skip(i + 1), lp.skip(li as int), rp.skip(ri as int)));
            },
            FetchSource::Local => {
                if li < local.len() {
                    assert(lp.skip(li as int)[0] == lp[li as int]);
                    assert(lp.skip(li as int).drop_first() == lp.skip(li + 1));
                    let c = Checkout::new(repositories[i].clone(), local[li].clone());
                    out.push(c);
                    assert(checkouts_view(out@) == before.push(c@));
                    assert(before + rest == checkouts_view(out@) + assembled(rs.skip(i + 1), ss.skip(i + 1), lp.skip(li + 1), rp.skip(ri as int)));
                    li = li + 1;
                } else {
                    assert(lp.skip(li as int).len() == 0);
                }
            },
            FetchSource::Remote => {
                if ri < remote.len() {
                    assert(rp.skip(ri as int)[0] == rp[ri as int]);
                    assert(rp.skip(ri as int).drop_first() == rp.skip(ri + 1));
                    let c = Checkout::new(repositories[i].clone(), remote[ri].clone());
                    out.push(c);
                    assert(checkouts_view(out@) == before.push(c@));
                    assert(before + rest == checkouts_view(out@) + assembled(rs.skip(i + 1), ss.skip(i + 1), lp.skip(li as int), rp.skip(ri + 1)));
                    ri = ri + 1;
                } else {
                    assert(rp.skip(ri as int).len() == 0);
                }
            },
        }
        i = i + 1;
    }
    assert(rs.skip(i as int).len() == 0);
    register_fresh(repositories, sources, local, true, known);
    register_fresh(repositories, sources, remote, false, known);
    out
}

/// Whether a fetch was made as planned: the sources are those that [`plan_fetch`] gives for the
/// registry `known`, one directory was fetched for each local and each remote repository, and
/// every occurrence of a repository got the same checkout (see [`fetched_consistently`]).
pub open spec fn fetch_was_planned(
    known: Map<RepositoryReferenceView, CheckoutView>,
    rs: Seq<RepositoryReferenceView>,
    ss: Seq<FetchSourceView>,
    local: Seq<Seq<char>>,
    remote: Seq<Seq<char>>,
) -> bool {
    &&& ss == sources_for(known, rs)
    &&& local.len() == count_kind(ss, true)
    &&& remote.len() == count_kind(ss, false)
    &&& fetched_consistently(known, rs, local, remote)
}

/// Closes a fetch of a list of repositories, given what fetching its local directories and
/// then its remote repositories gave: the first failure is the error, and then no checkout of
/// the list is stored in `known`; where both succeeded, the checkouts are those that
/// [`assemble`] puts together, and the checkouts fetched anew are stored. Where the local
/// fetches failed, the remote ones were not made, and `remote` is not looked at. After a fetch
/// made as planned (see [`fetch_was_planned`]), every repository of the list is known with the
/// checkout it got, so fetching the list again fetches nothing (see
/// [`law_second_fetch_fetches_nothing`]).
pub fn finish_fetch(
    repositories: &[RepositoryReference],
    sources: &[FetchSource],
    local: Result<Vec<String>, NieError>,
    remote: Result<Vec<String>, NieError>,
    known: &mut Registry<RepositoryReference, Checkout>,
) -> (r: Result<Vec<Checkout>, NieError>)
    requires
        sources@.len() == repositories@.len(),
    ensures
        local matches Err(e) ==> (r matches Err(e2) && e2 == e && final(known)@ == old(known)@),
        local is Ok ==> (remote matches Err(e) ==> (r matches Err(e2) && e2 == e && final(known)@ == old(
            known,
        )@)),
        local matches Ok(lp) ==> (remote matches Ok(rp) ==> (r matches Ok(cs) && checkouts_view(cs@)
            == assembled(
            references_view(repositories@),
            sources_view(sources@),
            texts_view(lp@),
            texts_view(rp@),
        ) && final(known)@ == register_all(
            register_all(
                old(known)@,
                fresh(references_view(repositories@), sources_view(sources@), texts_view(lp@), true),
            ),
            fresh(references_view(repositories@), sources_view(sources@), texts_view(rp@), false),
        ))),
        local matches Ok(lp) ==> (remote matches Ok(rp) ==> (fetch_was_planned(
            old(known)@,
            references_view(repositories@),
            sources_view(sources@),
            texts_view(lp@),
            texts_view(rp@),
        ) ==> (r matches Ok(cs) && cs@.len() == repositories@.len() && forall|i: int|
            0 <= i < repositories@.len() ==> #[trigger] fetch_source(final(known)@, repositories@[i]@)
                == FetchSourceView::Known(cs@[i]@)))),
{
    let ghost k0 = known@;
    let lp = match local {
        Ok(lp) => lp,
        Err(e) => {
            return Err(e);
        },
    };
    let rp = match remote {
        Ok(rp) => rp,
        Err(e) => {
            return Err(e);
        },
    };
    let cs = assemble(repositories, sources, &lp, &rp, known);
    proof {
        let rs = references_view(repositories@);
        if fetch_was_planned(k0, rs, sources_view(sources@), texts_view(lp@), texts_view(rp@)) {
            law_second_fetch_fetches_nothing(k0, rs, texts_view(lp@), texts_view(rp@));
            assert forall|i: int| 0 <= i < repositories@.len() implies #[trigger] fetch_source(
                known@,
                repositories@[i]@,
            ) == FetchSourceView::Known(cs@[i]@) by {
                assert(rs[i] == repositories@[i]@);
                assert(checkouts_view(cs@)[i] == cs@[i]@);
            }
        }
    }
    Ok(cs)
}

/// Stores each checkout fetched anew for the local (`local` true) or the remote repositories
/// (see [`fresh`]) under its repository, in order.
fn register_fresh(
    repositories: &[RepositoryReference],
    sources: &[FetchSource],
    paths: &[String],
    local: bool,
    known: &mut Registry<RepositoryReference, Checkout>,
)
    requires
        sources@.len() == repositories@.len(),
    ensures
        final(known)@ == register_all(
            old(known)@,
            fresh(references_view(repositories@), sources_view(sources@), texts_view(paths@), local),
        ),
{
    let ghost rs = references_view(repositories@);
    let ghost ss = sources_view(sources@);
    let ghost ps = texts_view(paths@);
    let ghost goal = register_all(old(known)@, fresh(rs, ss, ps, local));
    let mut i: usize = 0;
    let mut k: usize = 0;
    assert(rs.skip(0) == rs);
    assert(ss.skip(0) == ss);
    assert(ps.skip(0) == ps);
    while i < repositories.len()
        invariant
            sources@.len() == repositories@.len(),
            rs == references_view(repositories@),
            ss == sources_view(sources@),
            ps == texts_view(paths@),
            0 <= i <= rs.len(),
            0 <= k <= ps.len(),
            goal == register_all(known@, fresh(rs.skip(i as int), ss.skip(i as int), ps.skip(k as int), local)),
        decreases repositories.len() - i,
    {
        assert(rs.skip(i as int)[0] == rs[i as int]);
        assert(ss.skip(i as int)[0] == ss[i as int]);
        assert(rs.skip(i as int).drop_first() == rs.skip(i + 1));
        assert(ss.skip(i as int).drop_first() == ss.skip(i + 1));
        let wanted = match &sources[i] {
            FetchSource::Local => local,
            FetchSource::Remote => !local,
            FetchSource::Known(_) => false,
        };
        if wanted && k < paths.len() {
            assert(ps.skip(k as int)[0] == ps[k as int]);
            assert(ps.skip(k as int).drop_first() == ps.skip(k + 1));
            let c = Checkout::new(repositories[i].clone(), paths[k].clone());
            known.store(repositories[i].clone(), c);
            k = k + 1;
        } else if k >= paths.len() {
            assert(ps.skip(k as int).len() == 0);
        }
        i = i + 1;
    }
    assert(rs.skip(i as int).len() == 0);
}

/// Every checkout of the map is stored under its own repository.
pub open spec fn stored_under_own_repository(known: Map<RepositoryReferenceView, CheckoutView>) -> bool {
    forall|r: RepositoryReferenceView| #[trigger] known.contains_key(r) ==> known[r].repository == r
}

proof fn lemma_assembled_in_order(
    rs: Seq<RepositoryReferenceView>,
    ss: Seq<FetchSourceView>,
    local: Seq<Seq<char>>,
    remote: Seq<Seq<char>>,
)
    requires
        ss.len() == rs.len(),
        forall|i: int| #![trigger ss[i]] 0 <= i < ss.len() ==> (ss[i] matches FetchSourceView::Known(c) ==> c.repository == rs[i]),
        local.len() == count_kind(ss, true),
        remote.len() == count_kind(ss, false),
    ensures
        assembled(rs, ss, local, remote).len() == rs.len(),
        forall|i: int| 0 <= i < rs.len() ==> (#[trigger] assembled(rs, ss, local, remote)[i]).repository == rs[i],
    decreases rs.len(),
{
    if rs.len() > 0 {
        let t = rs.drop_first();
        let u = ss.drop_first();
        assert forall|i: int| #![trigger u[i]] 0 <= i < u.len() implies (u[i] matches FetchSourceView::Known(c) ==> c.repository == t[i]) by {
            assert(u[i] == ss[i + 1]);
            assert(t[i] == rs[i + 1]);
        }
        let a = assembled(rs, ss, local, remote);
        match ss[0] {
            FetchSourceView::Known(c) => {
                lemma_assembled_in_order(t, u, local, remote);
                assert forall|i: int| 0 <= i < rs.len() implies (#[trigger] a[i]).repository == rs[i] by {
                    if i > 0 {
                        assert(a[i] == assembled(t, u, local, remote)[i - 1]);
                    }
                }
            },
            FetchSourceView::Local => {
                lemma_assembled_in_order(t, u, local.drop_first(), remote);
                assert forall|i: int| 0 <= i < rs.len() implies (#[trigger] a[i]).repository == rs[i] by {
                    if i > 0 {
                        assert(a[i] == assembled(t, u, local.drop_first(), remote)[i - 1]);
                    }
                }
            },
            FetchSourceView::Remote => {
                lemma_assembled_in_order(t, u, local, remote.drop_first());
                assert forall|i: int| 0 <= i < rs.len() implies (#[trigger] a[i]).repository == rs[i] by {
                    if i > 0 {
                        assert(a[i] == assembled(t, u, local, remote.drop_first())[i - 1]);
                    }
                }
            },
        }
    }
}

/// Fetching a list of repositories gives one checkout per repository, in the order of the list
/// and each of its own repository, once every local and every remote repository was fetched:
/// where the registry holds each checkout under its own repository, the checkouts that
/// [`assemble`] puts together from the sources that [`plan_fetch`] gives are those of the list.
pub proof fn law_fetch_keeps_order(
    known: Map<RepositoryReferenceView, CheckoutView>,
    rs: Seq<RepositoryReferenceView>,
    local: Seq<Seq<char>>,
    remote: Seq<Seq<char>>,
)
    requires
        stored_under_own_repository(known),
        local.len() == count_kind(sources_for(known, rs), true),
        remote.len() == count_kind(sources_for(known, rs), false),
    ensures
        assembled(rs, sources_for(known, rs), local, remote).len()
            == rs.len(),
        forall|i: int|
            0 <= i < rs.len() ==> (#[trigger] assembled(
                rs,
                sources_for(known, rs),
                local,
                remote,
            )[i]).repository == rs[i],
{
    let ss = sources_for(known, rs);
    assert forall|i: int| #![trigger ss[i]] 0 <= i < ss.len() implies (ss[i] matches FetchSourceView::Known(c) ==> c.repository == rs[i]) by {
        assert(ss[i] == fetch_source(known, rs[i]));
        if known.contains_key(rs[i]) {
            assert(known[rs[i]].repository == rs[i]);
        }
    }
    lemma_assembled_in_order(rs, ss, local, remote);
}

proof fn lemma_register_fresh_keeps_own(
    known: Map<RepositoryReferenceView, CheckoutView>,
    rs: Seq<RepositoryReferenceView>,
    ss: Seq<FetchSourceView>,
    paths: Seq<Seq<char>>,
    local: bool,
)
    requires
        stored_under_own_repository(known),
    ensures
        stored_under_own_repository(register_all(known, fresh(rs, ss, paths, local))),
    decreases ss.len(),
{
    if ss.len() > 0 && rs.len() > 0 {
        let f = fresh(rs, ss, paths, local);
        if ((local && ss[0] is Local) || (!local && ss[0] is Remote)) && paths.len() > 0 {
            let c = CheckoutView { repository: rs[0], path: paths[0] };
            let m = known.insert(rs[0], c);
            assert(stored_under_own_repository(m));
            lemma_register_fresh_keeps_own(m, rs.drop_first(), ss.drop_first(), paths.drop_first(), local);
            assert(f[0] == c);
            assert(f.drop_first() == fresh(rs.drop_first(), ss.drop_first(), paths.drop_first(), local));
        } else {
            lemma_register_fresh_keeps_own(known, rs.drop_first(), ss.drop_first(), paths, local);
        }
    }
}

/// Registering the checkouts fetched anew keeps every checkout stored under its own repository.
pub proof fn law_register_keeps_own_repository(
    known: Map<RepositoryReferenceView, CheckoutView>,
    rs: Seq<RepositoryReferenceView>,
    ss: Seq<FetchSourceView>,
    local: Seq<Seq<char>>,
    remote: Seq<Seq<char>>,
)
    requires
        stored_under_own_repository(known),
    ensures
        stored_under_own_repository(
            register_all(register_all(known, fresh(rs, ss, local, true)), fresh(rs, ss, remote, false)),
        ),
{
    lemma_register_fresh_keeps_own(known, rs, ss, local, true);
    lemma_register_fresh_keeps_own(register_all(known, fresh(rs, ss, local, true)), rs, ss, remote, false);
}

proof fn lemma_register_avoids(m: Map<RepositoryReferenceView, CheckoutView>, cs: Seq<CheckoutView>, k: RepositoryReferenceView)
    requires
        forall|j: int| 0 <= j < cs.len() ==> (#[trigger] cs[j]).repository != k,
    ensures
        register_all(m, cs).contains_key(k) == m.contains_key(k),
        m.contains_key(k) ==> register_all(m, cs)[k] == m[k],
    decreases cs.len(),
{
    if cs.len() > 0 {
        let t = cs.drop_first();
        assert forall|j: int| 0 <= j < t.len() implies (#[trigger] t[j]).repository != k by {
            assert(t[j] == cs[j + 1]);
        }
        assert(cs[0].repository != k);
        lemma_register_avoids(m.insert(cs[0].repository, cs[0]), t, k);
    }
}

/// Whether a source is of the kind that is fetched locally (`local` true) or remotely.
pub open spec fn of_kind(s: FetchSourceView, local: bool) -> bool {
    (local && s is Local) || (!local && s is Remote)
}

/// The directories fetched for the local (`local` true) or the remote repositories.
pub open spec fn paths_of_kind(lp: Seq<Seq<char>>, rp: Seq<Seq<char>>, local: bool) -> Seq<Seq<char>> {
    if local {
        lp
    } else {
        rp
    }
}

/// The checkout that assembling gives the first repository of a list.
pub open spec fn head_checkout(
    rs: Seq<RepositoryReferenceView>,
    ss: Seq<FetchSourceView>,
    lp: Seq<Seq<char>>,
    rp: Seq<Seq<char>>,
) -> CheckoutView {
    match ss[0] {
        FetchSourceView::Known(c) => c,
        FetchSourceView::Local => CheckoutView { repository: rs[0], path: lp[0] },
        FetchSourceView::Remote => CheckoutView { repository: rs[0], path: rp[0] },
    }
}

/// The directories left for the rest of a list once its first repository took the one it
/// needed, if any: `local` true for the local directories.
pub open spec fn rest_paths(ss: Seq<FetchSourceView>, ps: Seq<Seq<char>>, local: bool) -> Seq<Seq<char>> {
    if of_kind(ss[0], local) {
        ps.drop_first()
    } else {
        ps
    }
}

proof fn lemma_assemble_head(
    rs: Seq<RepositoryReferenceView>,
    ss: Seq<FetchSourceView>,
    lp: Seq<Seq<char>>,
    rp: Seq<Seq<char>>,
    local: bool,
)
    requires
        rs.len() > 0,
        ss.len() == rs.len(),
        lp.len() == count_kind(ss, true),
        rp.len() == count_kind(ss, false),
    ensures
        rest_paths(ss, lp, true).len() == count_kind(ss.drop_first(), true),
        rest_paths(ss, rp, false).len() == count_kind(ss.drop_first(), false),
        assembled(rs, ss, lp, rp) == seq![head_checkout(rs, ss, lp, rp)] + assembled(
            rs.drop_first(),
            ss.drop_first(),
            rest_paths(ss, lp, true),
            rest_paths(ss, rp, false),
        ),
        fresh(rs, ss, paths_of_kind(lp, rp, local), local) == if of_kind(ss[0], local) {
            seq![head_checkout(rs, ss, lp, rp)] + fresh(
                rs.drop_first(),
                ss.drop_first(),
                paths_of_kind(rest_paths(ss, lp, true), rest_paths(ss, rp, false), local),
                local,
            )
        } else {
            fresh(
                rs.drop_first(),
                ss.drop_first(),
                paths_of_kind(rest_paths(ss, lp, true), rest_paths(ss, rp, false), local),
                local,
            )
        },
        ss[0] matches FetchSourceView::Known(c) ==> head_checkout(rs, ss, lp, rp) == c,
        !(ss[0] is Known) ==> head_checkout(rs, ss, lp, rp).repository == rs[0],
{
    let u = ss.drop_first();
    assert(count_kind(ss, true) == (if ss[0] is Local { 1nat } else { 0nat }) + count_kind(u, true));
    assert(count_kind(ss, false) == (if ss[0] is Remote { 1nat } else { 0nat }) + count_kind(u, false));
}

proof fn lemma_assembled_shape(
    rs: Seq<RepositoryReferenceView>,
    ss: Seq<FetchSourceView>,
    lp: Seq<Seq<char>>,
    rp: Seq<Seq<char>>,
)
    requires
        ss.len() == rs.len(),
        lp.len() == count_kind(ss, true),
        rp.len() == count_kind(ss, false),
    ensures
        assembled(rs, ss, lp, rp).len() == rs.len(),
        forall|j: int|
            #![trigger assembled(rs, ss, lp, rp)[j]]
            0 <= j < rs.len() && !(ss[j] is Known) ==> assembled(rs, ss, lp, rp)[j].repository == rs[j],
        forall|j: int|
            #![trigger assembled(rs, ss, lp, rp)[j]]
            0 <= j < rs.len() ==> (ss[j] matches FetchSourceView::Known(c) ==> assembled(rs, ss, lp, rp)[j] == c),
    decreases rs.len(),
{
    if rs.len() > 0 {
        let t = rs.drop_first();
        let u = ss.drop_first();
        let l1 = rest_paths(ss, lp, true);
        let r1 = rest_paths(ss, rp, false);
        lemma_assemble_head(rs, ss, lp, rp, true);
        lemma_assembled_shape(t, u, l1, r1);
        let a = assembled(rs, ss, lp, rp);
        let a1 = assembled(t, u, l1, r1);
        assert forall|j: int| #![trigger a[j]] 0 < j < rs.len() implies a[j] == a1[j - 1] && ss[j] == u[j - 1] by {}
    }
}

#[verifier::spinoff_prover]
proof fn lemma_fresh_members(
    rs: Seq<RepositoryReferenceView>,
    ss: Seq<FetchSourceView>,
    lp: Seq<Seq<char>>,
    rp: Seq<Seq<char>>,
    local: bool,
)
    requires
        ss.len() == rs.len(),
        lp.len() == count_kind(ss, true),
        rp.len() == count_kind(ss, false),
    ensures
        forall|k: int|
            #![trigger fresh(rs, ss, paths_of_kind(lp, rp, local), local)[k]]
            0 <= k < fresh(rs, ss, paths_of_kind(lp, rp, local), local).len() ==> exists|j: int|
                #![trigger assembled(rs, ss, lp, rp)[j]]
                0 <= j < rs.len() && of_kind(ss[j], local) && fresh(rs, ss, paths_of_kind(lp, rp, local), local)[k]
                    == assembled(rs, ss, lp, rp)[j],
        forall|j: int|
            #![trigger assembled(rs, ss, lp, rp)[j]]
            0 <= j < rs.len() && of_kind(ss[j], local) ==> exists|k: int|
                #![trigger fresh(rs, ss, paths_of_kind(lp, rp, local), local)[k]]
                0 <= k < fresh(rs, ss, paths_of_kind(lp, rp, local), local).len() && fresh(
                    rs,
                    ss,
                    paths_of_kind(lp, rp, local),
                    local,
                )[k] == assembled(rs, ss, lp, rp)[j],
    decreases rs.len(),
{
    if rs.len() > 0 {
        let t = rs.drop_first();
        let u = ss.drop_first();
        let l1 = rest_paths(ss, lp, true);
        let r1 = rest_paths(ss, rp, false);
        lemma_assemble_head(rs, ss, lp, rp, local);
        lemma_assembled_shape(rs, ss, lp, rp);
        lemma_fresh_members(t, u, l1, r1, local);
        let a = assembled(rs, ss, lp, rp);
        let a1 = assembled(t, u, l1, r1);
        let f = fresh(rs, ss, paths_of_kind(lp, rp, local), local);
        let f1 = fresh(t, u, paths_of_kind(l1, r1, local), local);
        let a0 = head_checkout(rs, ss, lp, rp);
        assert forall|k: int| #![trigger f[k]] 0 <= k < f.len() implies exists|j: int|
            #![trigger a[j]]
            0 <= j < rs.len() && of_kind(ss[j], local) && f[k] == a[j] by {
            if of_kind(ss[0], local) && k == 0 {
                assert(a[0] == a0);
            } else {
                let k1 = if of_kind(ss[0], local) { k - 1 } else { k };
                assert(f[k] == f1[k1]);
                let j1 = choose|j1: int| #![trigger a1[j1]] 0 <= j1 < t.len() && of_kind(u[j1], local) && f1[k1] == a1[j1];
                assert(a[j1 + 1] == a1[j1]);
                assert(ss[j1 + 1] == u[j1]);
            }
        }
        assert forall|j: int| #![trigger a[j]] 0 <= j < rs.len() && of_kind(ss[j], local) implies exists|k: int|
            #![trigger f[k]]
            0 <= k < f.len() && f[k] == a[j] by {
            if j == 0 {
                assert(f[0] == a0);
            } else {
                assert(a[j] == a1[j - 1]);
                assert(u[j - 1] == ss[j]);
                assert(of_kind(u[j - 1], local));
                let k1 = choose|k1: int| #![trigger f1[k1]] 0 <= k1 < f1.len() && f1[k1] == a1[j - 1];
                if of_kind(ss[0], local) {
                    assert(f[k1 + 1] == f1[k1]);
                } else {
                    assert(f[k1] == f1[k1]);
                }
            }
        }
    }
}

proof fn lemma_register_value(
    m: Map<RepositoryReferenceView, CheckoutView>,
    cs: Seq<CheckoutView>,
    k: RepositoryReferenceView,
    v: CheckoutView,
)
    requires
        exists|j: int| 0 <= j < cs.len() && (#[trigger] cs[j]).repository == k,
        forall|j: int| 0 <= j < cs.len() && (#[trigger] cs[j]).repository == k ==> cs[j] == v,
    ensures
        register_all(m, cs).contains_key(k),
        register_all(m, cs)[k] == v,
    decreases cs.len(),
{
    let t = cs.drop_first();
    assert forall|j: int| 0 <= j < t.len() && (#[trigger] t[j]).repository == k implies t[j] == v by {
        assert(t[j] == cs[j + 1]);
    }
    if cs[0].repository == k {
        let m1 = m.insert(k, cs[0]);
        if exists|j: int| 0 <= j < t.len() && (#[trigger] t[j]).repository == k {
            lemma_register_value(m1, t, k, v);
        } else {
            lemma_register_avoids(m1, t, k);
        }
    } else {
        let j = choose|j: int| 0 <= j < cs.len() && (#[trigger] cs[j]).repository == k;
        assert(t[j - 1] == cs[j]);
        lemma_register_value(m.insert(cs[0].repository, cs[0]), t, k, v);
    }
}

/// The checkouts known after fetching `rs` with the local and remote directories `local` and
/// `remote` (see [`assemble`]).
pub open spec fn known_after_fetch(
    known: Map<RepositoryReferenceView, CheckoutView>,
    rs: Seq<RepositoryReferenceView>,
    local: Seq<Seq<char>>,
    remote: Seq<Seq<char>>,
) -> Map<RepositoryReferenceView, CheckoutView> {
    let ss = sources_for(known, rs);
    register_all(register_all(known, fresh(rs, ss, local, true)), fresh(rs, ss, remote, false))
}

proof fn lemma_all_known(
    rs: Seq<RepositoryReferenceView>,
    ss: Seq<FetchSourceView>,
    cs: Seq<CheckoutView>,
    paths: Seq<Seq<char>>,
    local: bool,
)
    requires
        ss.len() == rs.len(),
        cs.len() == rs.len(),
        forall|i: int| 0 <= i < ss.len() ==> #[trigger] ss[i] == FetchSourceView::Known(cs[i]),
    ensures
        count_kind(ss, true) == 0,
        count_kind(ss, false) == 0,
        remote_subsequence(rs, ss) == Seq::<RepositoryReferenceView>::empty(),
        assembled(rs, ss, Seq::empty(), Seq::empty()) == cs,
        fresh(rs, ss, paths, local) == Seq::<CheckoutView>::empty(),
    decreases rs.len(),
{
    if rs.len() > 0 {
        let u = ss.drop_first();
        let d = cs.drop_first();
        assert forall|i: int| 0 <= i < u.len() implies #[trigger] u[i] == FetchSourceView::Known(d[i]) by {
            assert(u[i] == ss[i + 1]);
        }
        assert(ss[0] == FetchSourceView::Known(cs[0]));
        lemma_all_known(rs.drop_first(), u, d, paths, local);
        assert(cs == seq![cs[0]] + d);
    } else {
        assert(cs =~= Seq::<CheckoutView>::empty());
    }
}

/// Whether the fetch of `rs` gave every occurrence of a repository the same checkout: so it is
/// for a list without repeated repositories, and for a repository that was known before.
pub open spec fn fetched_consistently(
    known: Map<RepositoryReferenceView, CheckoutView>,
    rs: Seq<RepositoryReferenceView>,
    local: Seq<Seq<char>>,
    remote: Seq<Seq<char>>,
) -> bool {
    forall|i: int, j: int|
        0 <= i < rs.len() && 0 <= j < rs.len() && rs[i] == rs[j] ==> #[trigger] assembled(
            rs,
            sources_for(known, rs),
            local,
            remote,
        )[i] == #[trigger] assembled(rs, sources_for(known, rs), local, remote)[j]
}

/// Every checkout fetched anew for the repository of occurrence `i` is the checkout of that
/// occurrence, and occurrence `i` is of the kind fetched.
#[verifier::spinoff_prover]
proof fn lemma_fresh_for_key(
    known: Map<RepositoryReferenceView, CheckoutView>,
    rs: Seq<RepositoryReferenceView>,
    lp: Seq<Seq<char>>,
    rp: Seq<Seq<char>>,
    i: int,
    local: bool,
)
    requires
        lp.len() == count_kind(sources_for(known, rs), true),
        rp.len() == count_kind(sources_for(known, rs), false),
        fetched_consistently(known, rs, lp, rp),
        0 <= i < rs.len(),
    ensures
        forall|n: int|
            0 <= n < fresh(rs, sources_for(known, rs), paths_of_kind(lp, rp, local), local).len() && (
            #[trigger] fresh(rs, sources_for(known, rs), paths_of_kind(lp, rp, local), local)[n]).repository
                == rs[i] ==> fresh(rs, sources_for(known, rs), paths_of_kind(lp, rp, local), local)[n]
                == assembled(rs, sources_for(known, rs), lp, rp)[i] && of_kind(sources_for(known, rs)[i], local),
        of_kind(sources_for(known, rs)[i], local) ==> exists|n: int|
            0 <= n < fresh(rs, sources_for(known, rs), paths_of_kind(lp, rp, local), local).len() && (
            #[trigger] fresh(rs, sources_for(known, rs), paths_of_kind(lp, rp, local), local)[n]).repository
                == rs[i],
{
    let ss = sources_for(known, rs);
    let first = assembled(rs, ss, lp, rp);
    let f = fresh(rs, ss, paths_of_kind(lp, rp, local), local);
    lemma_assembled_shape(rs, ss, lp, rp);
    lemma_fresh_members(rs, ss, lp, rp, local);
    assert(ss[i] == fetch_source(known, rs[i]));
    assert forall|n: int| 0 <= n < f.len() && (#[trigger] f[n]).repository == rs[i] implies f[n] == first[i]
        && of_kind(ss[i], local) by {
        let j = choose|j: int| #![trigger first[j]] 0 <= j < rs.len() && of_kind(ss[j], local) && f[n] == first[j];
        assert(rs[j] == rs[i]);
        assert(ss[j] == fetch_source(known, rs[j]));
    }
    if of_kind(ss[i], local) {
        assert(first[i] == first[i]);
        let n = choose|n: int| #![trigger f[n]] 0 <= n < f.len() && f[n] == first[i];
        assert(f[n].repository == rs[i]);
    }
}

#[verifier::spinoff_prover]
proof fn lemma_known_after_fetch_at(
    known: Map<RepositoryReferenceView, CheckoutView>,
    rs: Seq<RepositoryReferenceView>,
    local: Seq<Seq<char>>,
    remote: Seq<Seq<char>>,
    i: int,
)
    requires
        local.len() == count_kind(sources_for(known, rs), true),
        remote.len() == count_kind(sources_for(known, rs), false),
        fetched_consistently(known, rs, local, remote),
        0 <= i < rs.len(),
    ensures
        known_after_fetch(known, rs, local, remote).contains_key(rs[i]),
        known_after_fetch(known, rs, local, remote)[rs[i]] == assembled(rs, sources_for(known, rs), local, remote)[i],
{
    let ss = sources_for(known, rs);
    let first = assembled(rs, ss, local, remote);
    let fl = fresh(rs, ss, local, true);
    let fr = fresh(rs, ss, remote, false);
    let mid = register_all(known, fl);
    let k = rs[i];
    assert(paths_of_kind(local, remote, true) == local);
    assert(paths_of_kind(local, remote, false) == remote);
    lemma_fresh_for_key(known, rs, local, remote, i, true);
    lemma_fresh_for_key(known, rs, local, remote, i, false);
    lemma_assembled_shape(rs, ss, local, remote);
    assert(ss[i] == fetch_source(known, k));
    match ss[i] {
        FetchSourceView::Known(c) => {
            assert(first[i] == c);
            lemma_register_avoids(known, fl, k);
            lemma_register_avoids(mid, fr, k);
        },
        FetchSourceView::Local => {
            lemma_register_value(known, fl, k, first[i]);
            lemma_register_avoids(mid, fr, k);
        },
        FetchSourceView::Remote => {
            lemma_register_value(mid, fr, k, first[i]);
        },
    }
}

/// Fetching the same repositories a second time fetches nothing and gives the same checkouts:
/// after a fetch of a list (see [`assemble`]) that gave every occurrence of a repository the
/// same checkout (see [`fetched_consistently`]), every repository of the list is known with the
/// checkout the fetch gave, so a second [`plan_fetch`] has no local and no remote repository to
/// fetch, [`assemble`] then gives the checkouts of the first fetch in the same order, and the
/// registry stays as it was.
pub proof fn law_second_fetch_fetches_nothing(
    known: Map<RepositoryReferenceView, CheckoutView>,
    rs: Seq<RepositoryReferenceView>,
    local: Seq<Seq<char>>,
    remote: Seq<Seq<char>>,
)
    requires
        local.len() == count_kind(sources_for(known, rs), true),
        remote.len() == count_kind(sources_for(known, rs), false),
        fetched_consistently(known, rs, local, remote),
    ensures
        ({
            let first = assembled(rs, sources_for(known, rs), local, remote);
            let after = known_after_fetch(known, rs, local, remote);
            let again = sources_for(after, rs);
            &&& first.len() == rs.len()
            &&& forall|i: int|
                0 <= i < rs.len() ==> #[trigger] fetch_source(after, rs[i]) == FetchSourceView::Known(first[i])
            &&& count_kind(again, true) == 0
            &&& count_kind(again, false) == 0
            &&& remote_subsequence(rs, again) == Seq::<RepositoryReferenceView>::empty()
            &&& assembled(rs, again, Seq::empty(), Seq::empty()) == first
            &&& known_after_fetch(after, rs, Seq::empty(), Seq::empty()) == after
        }),
{
    let first = assembled(rs, sources_for(known, rs), local, remote);
    let after = known_after_fetch(known, rs, local, remote);
    lemma_assembled_shape(rs, sources_for(known, rs), local, remote);
    assert forall|i: int| 0 <= i < rs.len() implies after.contains_key(#[trigger] rs[i]) && after[rs[i]]
        == first[i] by {
        lemma_known_after_fetch_at(known, rs, local, remote, i);
    }
    let again = sources_for(after, rs);
    assert forall|i: int| 0 <= i < again.len() implies #[trigger] again[i] == FetchSourceView::Known(first[i]) by {
        assert(after.contains_key(rs[i]));
        assert(again[i] == fetch_source(after, rs[i]));
    }
    lemma_all_known(rs, again, first, Seq::empty(), true);
    lemma_all_known(rs, again, first, Seq::empty(), false);
    assert forall|i: int| 0 <= i < rs.len() implies #[trigger] fetch_source(after, rs[i])
        == FetchSourceView::Known(first[i]) by {
        assert(after.contains_key(rs[i]));
    }
}

} // verus!
