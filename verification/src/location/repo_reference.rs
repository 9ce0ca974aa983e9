//! References to repositories: a location and the arguments used to fetch it.
use vstd::prelude::*;

use crate::location::fetch_args::{FetchArgs, keys_sorted};
use crate::location::file_reference::{NixFileReference, NixFileReferenceView};
use crate::location::repo_location::{location_text, LocationView, RepositoryLocation};
use crate::text::{clone_opt, opt_view, push_str};

verus! {

/// The abstract value of a [`RepositoryReference`].
pub struct RepositoryReferenceView {
    pub location: LocationView,
    pub fetch_args: Seq<(Seq<char>, Seq<char>)>,
}

/// `#key=value` for each argument, in order.
pub open spec fn args_text(e: Seq<(Seq<char>, Seq<char>)>) -> Seq<char>
    decreases e.len(),
{
    if e.len() == 0 {
        Seq::empty()
    } else {
        seq!['#'] + e[0].0 + seq!['='] + e[0].1 + args_text(e.drop_first())
    }
}

/// The resource identifier of a repository reference (its `Display` form).
pub open spec fn repository_reference_text(r: RepositoryReferenceView) -> Seq<char> {
    location_text(r.location) + args_text(r.fetch_args)
}

/// Reference to a repository consisting of a [`RepositoryLocation`] and a collection of
/// additional arguments used to fetch the repository.
#[derive(Debug, PartialEq, Eq, Hash)]
pub struct RepositoryReference {
    pub location: RepositoryLocation,
    pub fetch_args: FetchArgs,
}

impl View for RepositoryReference {
    type V = RepositoryReferenceView;

    open spec fn view(&self) -> RepositoryReferenceView {
        RepositoryReferenceView { location: self.location@, fetch_args: self.fetch_args@ }
    }
}

impl RepositoryReference {
    /// Whether `self` and `other` have the same location and fetch arguments.
    pub fn same_as(&self, other: &Self) -> (r: bool)
        ensures
            r == (self@ == other@),
    {
        self.location.same_as(&other.location) && self.fetch_args.same_as(&other.fetch_args)
    }
}

/// Appends `#key=value` for each argument.
pub fn push_args_text(s: &mut String, args: &FetchArgs)
    ensures
        final(s)@ == old(s)@ + args_text(args@),
{
    proof {
        reveal_strlit("#");
        reveal_strlit("=");
    }
    let entries = args.entries();
    let ghost e = args@;
    let mut i: usize = 0;
    assert(e.skip(0) == e);
    while i < entries.len()
        invariant
            crate::location::fetch_args::pairs_view(entries@) == e,
            0 <= i <= e.len(),
            old(s)@ + args_text(e) == s@ + args_text(e.skip(i as int)),
        decreases entries.len() - i,
    {
        let ghost before = s@;
        assert(e[i as int] == (entries@[i as int].0@, entries@[i as int].1@));
        proof {
            reveal_strlit("#");
            reveal_strlit("=");
        }
        assert("#"@ == seq!['#']);
        assert("="@ == seq!['=']);
        push_str(s, "#");
        push_str(s, entries[i].0.as_str());
        push_str(s, "=");
        push_str(s, entries[i].1.as_str());
        let ghost t = e.skip(i as int);
        assert(t[0] == e[i as int]);
        assert(t.drop_first() == e.skip(i + 1));
        assert(s@ == before + (seq!['#'] + e[i as int].0 + seq!['='] + e[i as int].1));
        assert(before + args_text(t) == before + (seq!['#'] + e[i as int].0 + seq!['=']
            + e[i as int].1) + args_text(e.skip(i + 1)));
        i = i + 1;
    }
    assert(e.skip(e.len() as int).len() == 0);
    assert(s@ + args_text(e.skip(i as int)) == s@);
}

impl Clone for RepositoryReference {
    fn clone(&self) -> (r: Self)
        ensures
            r@ == self@,
    {
        RepositoryReference { location: self.location.clone(), fetch_args: self.fetch_args.clone() }
    }
}

impl Default for RepositoryReference {
    fn default() -> (r: Self)
        ensures
            r@.location == crate::location::repo_location::default_location(),
            r@.fetch_args == Seq::<(Seq<char>, Seq<char>)>::empty(),
    {
        RepositoryReference { location: RepositoryLocation::default(), fetch_args: FetchArgs::new() }
    }
}

impl RepositoryReference {
    /// A reference to `location` without fetch arguments.
    pub fn new(location: RepositoryLocation) -> (r: Self)
        ensures
            r@.location == location@,
            r@.fetch_args == Seq::<(Seq<char>, Seq<char>)>::empty(),
    {
        RepositoryReference { location, fetch_args: FetchArgs::new() }
    }

    pub fn location(&self) -> (r: &RepositoryLocation)
        ensures
            *r == self.location,
    {
        &self.location
    }

    pub fn location_mut(&mut self) -> (r: &mut RepositoryLocation)
        ensures
            *r == old(self).location,
            final(self).location == *final(r),
            final(self).fetch_args == old(self).fetch_args,
    {
        &mut self.location
    }

    pub fn fetch_args(&self) -> (r: &FetchArgs)
        ensures
            *r == self.fetch_args,
            keys_sorted(r@),
    {
        let _ = self.fetch_args.entries();
        &self.fetch_args
    }

    /// The fetch arguments, as the arguments a checkout is made with.
    pub fn checkout_args(&self) -> (r: &FetchArgs)
        ensures
            *r == self.fetch_args,
    {
        &self.fetch_args
    }

    pub fn fetch_args_mut(&mut self) -> (r: &mut FetchArgs)
        ensures
            *r == old(self).fetch_args,
            final(self).fetch_args == *final(r),
            final(self).location == old(self).location,
    {
        &mut self.fetch_args
    }

    /// A reference to the file `filename` in this repository.
    pub fn with_filename(&self, filename: Option<String>) -> (r: NixFileReference)
        ensures
            r@ == (NixFileReferenceView { repository: self@, filename: opt_view(filename) }),
    {
        NixFileReference::new(self.clone(), filename)
    }

    /// A reference to the file `filename` in this repository (see
    /// [`RepositoryReference::with_filename()`]).
    pub fn with_file(&self, filename: Option<String>) -> (r: NixFileReference)
        ensures
            r@ == (NixFileReferenceView { repository: self@, filename: opt_view(filename) }),
    {
        self.with_filename(filename)
    }

    /// The resource identifier of this reference (its `Display` form).
    pub fn to_string(&self) -> (r: String)
        ensures
            r@ == repository_reference_text(self@),
    {
        let mut s = self.location.to_string();
        push_args_text(&mut s, &self.fetch_args);
        s
    }
}

} // verus!
