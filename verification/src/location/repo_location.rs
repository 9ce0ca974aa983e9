//! Locations of repositories and the resource identifiers that name them.
use vstd::prelude::*;

use crate::location::{
    RES_PREFIX_CODEBERG, RES_PREFIX_FORGEJO, RES_PREFIX_GIT, RES_PREFIX_GITHUB, RES_PREFIX_LOCAL,
    RES_PREFIX_TAR,
};
use crate::paths::{join_path, path_join};
use crate::text::{
    clone_opt, opt_same, str_eq, ends_with, ends_with_str, opt_view, owned, push_str, split_once,
    split_once_char, starts_with, starts_with_str, strip_prefix, strip_prefix_str,
};

verus! {

/// Location specification for a remote or local repository or directory
#[derive(Debug, PartialEq, Eq, Hash)]
pub enum RepositoryLocation {
    Git(String),
    LocalFile(String),
    Tarball(String),
    Forgejo(String, String, String, Option<String>),
    Codeberg(String, String, Option<String>),
    Github(String, String, Option<String>),
}

/// The abstract value of a [`RepositoryLocation`].
pub enum LocationView {
    Git(Seq<char>),
    LocalFile(Seq<char>),
    Tarball(Seq<char>),
    Forgejo(Seq<char>, Seq<char>, Seq<char>, Option<Seq<char>>),
    Codeberg(Seq<char>, Seq<char>, Option<Seq<char>>),
    Github(Seq<char>, Seq<char>, Option<Seq<char>>),
}

impl View for RepositoryLocation {
    type V = LocationView;

    open spec fn view(&self) -> LocationView {
        match self {
            RepositoryLocation::Git(u) => LocationView::Git(u@),
            RepositoryLocation::LocalFile(p) => LocationView::LocalFile(p@),
            RepositoryLocation::Tarball(u) => LocationView::Tarball(u@),
            RepositoryLocation::Forgejo(d, o, r, g) => LocationView::Forgejo(
                d@,
                o@,
                r@,
                opt_view(*g),
            ),
            RepositoryLocation::Codeberg(o, r, g) => LocationView::Codeberg(o@, r@, opt_view(*g)),
            RepositoryLocation::Github(o, r, b) => LocationView::Github(o@, r@, opt_view(*b)),
        }
    }
}

/// The location that a default reference points at: the git repository in the current
/// directory.
pub open spec fn default_location() -> LocationView {
    LocationView::Git("./."@)
}

/// `owner/repo` or `owner/repo/ref`, split into its parts; `ref` may itself contain `/`.
pub open spec fn parse_owner_repo(rest: Seq<char>) -> Option<
    (Seq<char>, Seq<char>, Option<Seq<char>>),
> {
    match split_once(rest, '/') {
        None => None,
        Some((owner, repo)) => match split_once(repo, '/') {
            Some((r, g)) => Some((owner, r, Some(g))),
            None => Some((owner, repo, None)),
        },
    }
}

/// `s` ends like the name of a tarball.
pub open spec fn has_tarball_suffix(s: Seq<char>) -> bool {
    ends_with(s, ".tar"@) || ends_with(s, ".tar.gz"@) || ends_with(s, ".tar.xz"@) || ends_with(
        s,
        ".tar.bz2"@,
    )
}

/// The location that the resource identifier `s` names, where `local_dir` tells whether `s`
/// names an existing directory that is not a git checkout (it decides unprefixed identifiers).
/// `None` for a forge identifier that lacks its `/`-separated parts.
pub open spec fn parse_location(s: Seq<char>, local_dir: bool) -> Option<LocationView> {
    match strip_prefix(s, RES_PREFIX_CODEBERG@) {
        Some(rest) => match parse_owner_repo(rest) {
            Some((o, r, g)) => Some(LocationView::Codeberg(o, r, g)),
            None => None,
        },
        None => match strip_prefix(s, RES_PREFIX_GITHUB@) {
            Some(rest) => match parse_owner_repo(rest) {
                Some((o, r, b)) => Some(LocationView::Github(o, r, b)),
                None => None,
            },
            None => match strip_prefix(s, RES_PREFIX_FORGEJO@) {
                Some(rest) => match split_once(rest, '/') {
                    Some((d, rest2)) => match parse_owner_repo(rest2) {
                        Some((o, r, g)) => Some(LocationView::Forgejo(d, o, r, g)),
                        None => None,
                    },
                    None => None,
                },
                None => match strip_prefix(s, RES_PREFIX_LOCAL@) {
                    Some(p) => Some(LocationView::LocalFile(p)),
                    None => match strip_prefix(s, RES_PREFIX_GIT@) {
                        Some(u) => Some(LocationView::Git(u)),
                        None => if starts_with(s, RES_PREFIX_TAR@) && has_tarball_suffix(s) {
                            Some(LocationView::Tarball(s))
                        } else if local_dir {
                            Some(LocationView::LocalFile(s))
                        } else {
                            Some(LocationView::Git(s))
                        },
                    },
                },
            },
        },
    }
}

/// `s` has one of the prefixes that decide its kind of location without the file system.
pub open spec fn is_prefixed_identifier(s: Seq<char>) -> bool {
    starts_with(s, RES_PREFIX_CODEBERG@) || starts_with(s, RES_PREFIX_GITHUB@) || starts_with(
        s,
        RES_PREFIX_FORGEJO@,
    ) || starts_with(s, RES_PREFIX_LOCAL@) || starts_with(s, RES_PREFIX_GIT@) || (starts_with(
        s,
        RES_PREFIX_TAR@,
    ) && has_tarball_suffix(s))
}

/// `/ref` for a present git ref, nothing otherwise.
pub open spec fn ref_suffix(g: Option<Seq<char>>) -> Seq<char> {
    match g {
        Some(b) => seq!['/'] + b,
        None => Seq::empty(),
    }
}

/// The resource identifier of a location (its `Display` form).
pub open spec fn location_text(l: LocationView) -> Seq<char> {
    match l {
        LocationView::LocalFile(p) => RES_PREFIX_LOCAL@ + p,
        LocationView::Git(u) => RES_PREFIX_GIT@ + u,
        LocationView::Tarball(u) => "tar://"@ + u,
        LocationView::Forgejo(d, o, r, g) => RES_PREFIX_FORGEJO@ + d + seq!['/'] + o + seq!['/']
            + r + ref_suffix(g),
        LocationView::Codeberg(o, r, g) => RES_PREFIX_CODEBERG@ + o + seq!['/'] + r + ref_suffix(
            g,
        ),
        LocationView::Github(o, r, b) => RES_PREFIX_GITHUB@ + o + seq!['/'] + r + ref_suffix(b),
    }
}

/// Whether `path` names an existing directory (`std::path::Path::is_dir`).
///
/// Nothing is stated of the result: it depends on the file system.
#[verifier::external_body]
fn path_is_dir(path: &str) -> bool {
    std::path::Path::new(path).is_dir()
}

/// Splits `owner/repo[/ref]`.
fn split_owner_repo(rest: &str) -> (r: Option<(String, String, Option<String>)>)
    ensures
        match r {
            Some((o, rp, g)) => parse_owner_repo(rest@) == Some((o@, rp@, opt_view(g))),
            None => parse_owner_repo(rest@) is None,
        },
{
    match split_once_char(rest, '/') {
        None => None,
        Some((owner, repo)) => match split_once_char(repo.as_str(), '/') {
            Some((r, g)) => Some((owner, r, Some(g))),
            None => Some((owner, repo, None)),
        },
    }
}

/// Whether `s` ends like the name of a tarball.
fn is_tarball_name(s: &str) -> (r: bool)
    ensures
        r == has_tarball_suffix(s@),
{
    ends_with_str(s, ".tar") || ends_with_str(s, ".tar.gz") || ends_with_str(s, ".tar.xz")
        || ends_with_str(s, ".tar.bz2")
}

/// `ref` preceded by `/`, if present.
fn push_ref_suffix(s: &mut String, g: &Option<String>)
    ensures
        final(s)@ == old(s)@ + ref_suffix(opt_view(*g)),
{
    proof {
        reveal_strlit("/");
    }
    match g {
        Some(b) => {
            push_str(s, "/");
            push_str(s, b.as_str());
            assert(old(s)@ + "/"@ + b@ == old(s)@ + (seq!['/'] + b@));
        },
        None => {
            assert(old(s)@ + Seq::<char>::empty() == old(s)@);
        },
    }
}

impl RepositoryLocation {
    /// Whether `self` and `other` are the same location.
    pub fn same_as(&self, other: &Self) -> (r: bool)
        ensures
            r == (self@ == other@),
    {
        match (self, other) {
            (RepositoryLocation::Git(a), RepositoryLocation::Git(b)) => str_eq(a.as_str(), b.as_str()),
            (RepositoryLocation::LocalFile(a), RepositoryLocation::LocalFile(b)) => str_eq(
                a.as_str(),
                b.as_str(),
            ),
            (RepositoryLocation::Tarball(a), RepositoryLocation::Tarball(b)) => str_eq(
                a.as_str(),
                b.as_str(),
            ),
            (
                RepositoryLocation::Forgejo(d1, o1, r1, g1),
                RepositoryLocation::Forgejo(d2, o2, r2, g2),
            ) => str_eq(d1.as_str(), d2.as_str()) && str_eq(o1.as_str(), o2.as_str()) && str_eq(
                r1.as_str(),
                r2.as_str(),
            ) && opt_same(g1, g2),
            (RepositoryLocation::Codeberg(o1, r1, g1), RepositoryLocation::Codeberg(o2, r2, g2)) => {
                str_eq(o1.as_str(), o2.as_str()) && str_eq(r1.as_str(), r2.as_str()) && opt_same(g1, g2)
            },
            (RepositoryLocation::Github(o1, r1, b1), RepositoryLocation::Github(o2, r2, b2)) => {
                str_eq(o1.as_str(), o2.as_str()) && str_eq(r1.as_str(), r2.as_str()) && opt_same(b1, b2)
            },
            _ => false,
        }
    }
}

impl Clone for RepositoryLocation {
    fn clone(&self) -> (r: Self)
        ensures
            r@ == self@,
    {
        match self {
            RepositoryLocation::Git(u) => RepositoryLocation::Git(u.clone()),
            RepositoryLocation::LocalFile(p) => RepositoryLocation::LocalFile(p.clone()),
            RepositoryLocation::Tarball(u) => RepositoryLocation::Tarball(u.clone()),
            RepositoryLocation::Forgejo(d, o, r, g) => RepositoryLocation::Forgejo(
                d.clone(),
                o.clone(),
                r.clone(),
                clone_opt(g),
            ),
            RepositoryLocation::Codeberg(o, r, g) => RepositoryLocation::Codeberg(
                o.clone(),
                r.clone(),
                clone_opt(g),
            ),
            RepositoryLocation::Github(o, r, b) => RepositoryLocation::Github(
                o.clone(),
                r.clone(),
                clone_opt(b),
            ),
        }
    }
}

impl Default for RepositoryLocation {
    fn default() -> (r: Self)
        ensures
            r@ == default_location(),
    {
        RepositoryLocation::Git(owned("./."))
    }
}

impl RepositoryLocation {
    /// The location that the resource identifier `s` names (see [`parse_location`]), with
    /// `local_dir` telling whether `s` names an existing directory that is not a git checkout.
    pub fn parse(s: &str, local_dir: bool) -> (r: Result<Self, ()>)
        ensures
            match r {
                Ok(l) => parse_location(s@, local_dir) == Some(l@),
                Err(_) => parse_location(s@, local_dir) is None,
            },
    {
        if let Some(rest) = strip_prefix_str(s, RES_PREFIX_CODEBERG) {
            match split_owner_repo(rest.as_str()) {
                Some((o, r, g)) => Ok(RepositoryLocation::Codeberg(o, r, g)),
                None => Err(()),
            }
        } else if let Some(rest) = strip_prefix_str(s, RES_PREFIX_GITHUB) {
            match split_owner_repo(rest.as_str()) {
                Some((o, r, b)) => Ok(RepositoryLocation::Github(o, r, b)),
                None => Err(()),
            }
        } else if let Some(rest) = strip_prefix_str(s, RES_PREFIX_FORGEJO) {
            match split_once_char(rest.as_str(), '/') {
                Some((d, rest2)) => match split_owner_repo(rest2.as_str()) {
                    Some((o, r, g)) => Ok(RepositoryLocation::Forgejo(d, o, r, g)),
                    None => Err(()),
                },
                None => Err(()),
            }
        } else if let Some(p) = strip_prefix_str(s, RES_PREFIX_LOCAL) {
            Ok(RepositoryLocation::LocalFile(p))
        } else if let Some(u) = strip_prefix_str(s, RES_PREFIX_GIT) {
            Ok(RepositoryLocation::Git(u))
        } else if starts_with_str(s, RES_PREFIX_TAR) && is_tarball_name(s) {
            Ok(RepositoryLocation::Tarball(owned(s)))
        } else if local_dir {
            Ok(RepositoryLocation::LocalFile(owned(s)))
        } else {
            Ok(RepositoryLocation::Git(owned(s)))
        }
    }

    /// The directory whose presence marks a git checkout: `.git` in `s`.
    pub fn git_dir_of(s: &str) -> (r: String)
        ensures
            r@ == path_join(s@, ".git"@),
    {
        join_path(s, ".git")
    }

    /// Whether an identifier names a local directory that is not a git checkout, given whether
    /// it is a directory and whether its [`RepositoryLocation::git_dir_of`] is one.
    pub fn is_local_dir(is_dir: bool, git_dir_is_dir: bool) -> (r: bool)
        ensures
            r == (is_dir && !git_dir_is_dir),
    {
        is_dir && !git_dir_is_dir
    }

    /// Whether an unprefixed identifier names a local directory that is not a git checkout:
    /// asks the file system whether `s` is a directory and, if so, whether its git directory
    /// is one, and decides with [`RepositoryLocation::is_local_dir`]. What the file system
    /// answers is not stated.
    pub fn probe_local_dir(s: &str) -> bool {
        let is_dir = path_is_dir(s);
        if is_dir {
            let git_dir = Self::git_dir_of(s);
            Self::is_local_dir(is_dir, path_is_dir(git_dir.as_str()))
        } else {
            Self::is_local_dir(is_dir, false)
        }
    }

    /// Whether parsing `s` depends on the file system, i.e. whether `s` has no known prefix.
    pub fn needs_probe(s: &str) -> (r: bool)
        ensures
            r == !is_prefixed_identifier(s@),
            !r ==> parse_location(s@, true) == parse_location(s@, false),
    {
        !(starts_with_str(s, RES_PREFIX_CODEBERG) || starts_with_str(s, RES_PREFIX_GITHUB)
            || starts_with_str(s, RES_PREFIX_FORGEJO) || starts_with_str(s, RES_PREFIX_LOCAL)
            || starts_with_str(s, RES_PREFIX_GIT) || (starts_with_str(s, RES_PREFIX_TAR)
            && is_tarball_name(s)))
    }

    /// The location that the resource identifier `s` names (`FromStr`). An identifier without a
    /// known prefix names a local directory if the file system shows one that is not a git
    /// checkout, and a git URL otherwise; which of the two the file system shows is not stated.
    pub fn from_str(s: &str) -> (r: Result<Self, ()>)
        ensures
            exists|local_dir: bool|
                match r {
                    Ok(l) => parse_location(s@, local_dir) == Some(l@),
                    Err(_) => parse_location(s@, local_dir) is None,
                },
    {
        let local_dir = if Self::needs_probe(s) {
            Self::probe_local_dir(s)
        } else {
            false
        };
        Self::parse(s, local_dir)
    }

    /// The resource identifier of this location (its `Display` form).
    pub fn to_string(&self) -> (r: String)
        ensures
            r@ == location_text(self@),
    {
        proof {
            reveal_strlit("/");
        }
        match self {
            RepositoryLocation::LocalFile(p) => {
                let mut s = owned(RES_PREFIX_LOCAL);
                push_str(&mut s, p.as_str());
                s
            },
            RepositoryLocation::Git(u) => {
                let mut s = owned(RES_PREFIX_GIT);
                push_str(&mut s, u.as_str());
                s
            },
            RepositoryLocation::Tarball(u) => {
                let mut s = owned("tar://");
                push_str(&mut s, u.as_str());
                s
            },
            RepositoryLocation::Forgejo(d, o, r, g) => {
                let mut s = owned(RES_PREFIX_FORGEJO);
                push_str(&mut s, d.as_str());
                push_str(&mut s, "/");
                push_str(&mut s, o.as_str());
                push_str(&mut s, "/");
                push_str(&mut s, r.as_str());
                push_ref_suffix(&mut s, g);
                s
            },
            RepositoryLocation::Codeberg(o, r, g) => {
                let mut s = owned(RES_PREFIX_CODEBERG);
                push_str(&mut s, o.as_str());
                push_str(&mut s, "/");
                push_str(&mut s, r.as_str());
                push_ref_suffix(&mut s, g);
                s
            },
            RepositoryLocation::Github(o, r, b) => {
                let mut s = owned(RES_PREFIX_GITHUB);
                push_str(&mut s, o.as_str());
                push_str(&mut s, "/");
                push_str(&mut s, r.as_str());
                push_ref_suffix(&mut s, b);
                s
            },
        }
    }
}

} // verus!
