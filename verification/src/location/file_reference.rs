//! References to Nix files within repositories.
use vstd::prelude::*;

use crate::location::attribute_path::AttributePath;
use crate::location::reference::{NixReference, NixReferenceView};
use crate::location::repo_location::location_text;
use crate::location::repo_reference::{
    args_text, push_args_text, RepositoryReference, RepositoryReferenceView,
};
use crate::text::{clone_opt, opt_same, opt_view, push_str};

verus! {

/// The abstract value of a [`NixFileReference`].
pub struct NixFileReferenceView {
    pub repository: RepositoryReferenceView,
    pub filename: Option<Seq<char>>,
}

/// `#file=<name>` for a named file, nothing otherwise.
pub open spec fn filename_text(f: Option<Seq<char>>) -> Seq<char> {
    match f {
        Some(p) => "#file="@ + p,
        None => Seq::empty(),
    }
}

/// The resource identifier of a file reference (its `Display` form).
pub open spec fn file_reference_text(f: NixFileReferenceView) -> Seq<char> {
    location_text(f.repository.location) + filename_text(f.filename) + args_text(
        f.repository.fetch_args,
    )
}

/// Reference to a Nix file consisting of a [`RepositoryReference`] (in turn consisting of a
/// [`super::RepositoryLocation`]) and a file path.
#[derive(Debug, PartialEq, Eq, Hash)]
pub struct NixFileReference {
    pub repository: RepositoryReference,
    pub filename: Option<String>,
}

impl View for NixFileReference {
    type V = NixFileReferenceView;

    open spec fn view(&self) -> NixFileReferenceView {
        NixFileReferenceView { repository: self.repository@, filename: opt_view(self.filename) }
    }
}

/// Appends `#file=<name>` for a named file.
pub fn push_filename_text(s: &mut String, f: &Option<String>)
    ensures
        final(s)@ == old(s)@ + filename_text(opt_view(*f)),
{
    match f {
        Some(p) => {
            push_str(s, "#file=");
            push_str(s, p.as_str());
        },
        None => {
            assert(old(s)@ + Seq::<char>::empty() == old(s)@);
        },
    }
}

impl Clone for NixFileReference {
    fn clone(&self) -> (r: Self)
        ensures
            r@ == self@,
    {
        NixFileReference { repository: self.repository.clone(), filename: clone_opt(&self.filename) }
    }
}

impl Default for NixFileReference {
    fn default() -> (r: Self)
        ensures
            r@.repository.location == crate::location::repo_location::default_location(),
            r@.repository.fetch_args == Seq::<(Seq<char>, Seq<char>)>::empty(),
            r@.filename is None,
    {
        NixFileReference { repository: RepositoryReference::default(), filename: None }
    }
}

impl NixFileReference {
    /// Whether `self` and `other` name the same file of the same repository.
    pub fn same_as(&self, other: &Self) -> (r: bool)
        ensures
            r == (self@ == other@),
    {
        self.repository.same_as(&other.repository) && opt_same(&self.filename, &other.filename)
    }

    pub fn new(repository: RepositoryReference, filename: Option<String>) -> (r: Self)
        ensures
            r@ == (NixFileReferenceView { repository: repository@, filename: opt_view(filename) }),
    {
        NixFileReference { repository, filename }
    }

    pub fn repository(&self) -> (r: &RepositoryReference)
        ensures
            *r == self.repository,
    {
        &self.repository
    }

    pub fn repository_mut(&mut self) -> (r: &mut RepositoryReference)
        ensures
            *r == old(self).repository,
            final(self).repository == *final(r),
            final(self).filename == old(self).filename,
    {
        &mut self.repository
    }

    pub fn filename(&self) -> (r: Option<&String>)
        ensures
            match r {
                Some(f) => self.filename == Some(*f),
                None => self.filename is None,
            },
    {
        match &self.filename {
            Some(f) => Some(f),
            None => None,
        }
    }

    pub fn filename_mut(&mut self) -> (r: &mut Option<String>)
        ensures
            *r == old(self).filename,
            final(self).filename == *final(r),
            final(self).repository == old(self).repository,
    {
        &mut self.filename
    }

    /// Returns a copy of `self` with a new [`AttributePath`].
    pub fn with_attribute(&self, attr: AttributePath) -> (r: NixReference)
        ensures
            r@ == (NixReferenceView { file: self@, attribute: attr@ }),
    {
        NixReference::new(self.clone(), attr)
    }

    /// The resource identifier of this reference (its `Display` form).
    pub fn to_string(&self) -> (r: String)
        ensures
            r@ == file_reference_text(self@),
    {
        let mut s = self.repository.location.to_string();
        push_filename_text(&mut s, &self.filename);
        push_args_text(&mut s, &self.repository.fetch_args);
        s
    }
}

} // verus!
