//! Full references to Nix outputs and the resource identifiers that name them.
use vstd::prelude::*;

use crate::aliases::{Aliases, AliasesView};
use crate::error::NieError;
use crate::location::attribute_path::{attribute_path_from, attribute_path_text, AttributePath};
use crate::location::fetch_args::insert_entry;
use crate::location::file_reference::{
    filename_text, push_filename_text, NixFileReference, NixFileReferenceView,
};
use crate::location::repo_location::{location_text, parse_location, RepositoryLocation};
use crate::location::repo_reference::{
    args_text, push_args_text, RepositoryReference, RepositoryReferenceView,
};
use crate::text::{lookup_first, owned, split_char, split_once, split_once_char, split_str, str_eq};

verus! {

/// The abstract value of a [`NixReference`].
pub struct NixReferenceView {
    pub file: NixFileReferenceView,
    pub attribute: Seq<Seq<char>>,
}

/// `#<attribute path>` for a path below the toplevel, nothing for the toplevel.
pub open spec fn attribute_text(a: Seq<Seq<char>>) -> Seq<char> {
    if a.len() == 0 {
        Seq::empty()
    } else {
        seq!['#'] + attribute_path_text(a)
    }
}

/// The resource identifier of a reference (its `Display` form): location, attribute path,
/// file and fetch arguments.
pub open spec fn reference_text(r: NixReferenceView) -> Seq<char> {
    location_text(r.file.repository.location) + attribute_text(r.attribute) + filename_text(
        r.file.filename,
    ) + args_text(r.file.repository.fetch_args)
}

/// A reference to the toplevel of the default file of a repository at location `l`.
pub open spec fn reference_at(l: crate::location::repo_location::LocationView) -> NixReferenceView {
    NixReferenceView {
        file: NixFileReferenceView {
            repository: RepositoryReferenceView { location: l, fetch_args: Seq::empty() },
            filename: None,
        },
        attribute: Seq::empty(),
    }
}

/// The reference after reading one `#`-separated token: `f=<name>` and `file=<name>` name the
/// file, another `<key>=<value>` sets a fetch argument, and a token without `=` names the
/// attribute path.
pub open spec fn apply_token(r: NixReferenceView, t: Seq<char>) -> NixReferenceView {
    match split_once(t, '=') {
        Some((k, v)) => if k == "f"@ || k == "file"@ {
            NixReferenceView {
                file: NixFileReferenceView { repository: r.file.repository, filename: Some(v) },
                attribute: r.attribute,
            }
        } else {
            NixReferenceView {
                file: NixFileReferenceView {
                    repository: RepositoryReferenceView {
                        location: r.file.repository.location,
                        fetch_args: insert_entry(r.file.repository.fetch_args, k, v),
                    },
                    filename: r.file.filename,
                },
                attribute: r.attribute,
            }
        },
        None => NixReferenceView { file: r.file, attribute: attribute_path_from(t) },
    }
}

/// The reference after reading the tokens in order.
pub open spec fn apply_tokens(r: NixReferenceView, ts: Seq<Seq<char>>) -> NixReferenceView
    decreases ts.len(),
{
    if ts.len() == 0 {
        r
    } else {
        apply_tokens(apply_token(r, ts[0]), ts.drop_first())
    }
}

/// The reference that the resource identifier `s` names: its first `#`-separated token is an
/// alias or a location (see [`parse_location`], where `local_dir` tells whether that token names
/// an existing directory that is not a git checkout), the others are read by [`apply_token`].
/// `None` if the first token is neither an alias nor a location.
pub open spec fn parse_reference(s: Seq<char>, aliases: AliasesView, local_dir: bool) -> Option<
    NixReferenceView,
> {
    let tokens = split_char(s, '#');
    let start = match lookup_first(aliases, tokens[0]) {
        Some(a) => Some(a),
        None => match parse_location(tokens[0], local_dir) {
            Some(l) => Some(reference_at(l)),
            None => None,
        },
    };
    match start {
        Some(st) => Some(apply_tokens(st, tokens.drop_first())),
        None => None,
    }
}

/// Full reference to a Nix output consisting of a [`NixFileReference`] (in turn consisting of a
/// [`super::RepositoryReference`]) and an [`AttributePath`].
#[derive(Debug, PartialEq, Eq, Hash)]
pub struct NixReference {
    pub file: NixFileReference,
    pub attribute: AttributePath,
}

impl View for NixReference {
    type V = NixReferenceView;

    open spec fn view(&self) -> NixReferenceView {
        NixReferenceView { file: self.file@, attribute: self.attribute@ }
    }
}

impl Clone for NixReference {
    fn clone(&self) -> (r: Self)
        ensures
            r@ == self@,
    {
        NixReference { file: self.file.clone(), attribute: self.attribute.clone() }
    }
}

impl Default for NixReference {
    fn default() -> (r: Self)
        ensures
            r@ == reference_at(crate::location::repo_location::default_location()),
    {
        NixReference { file: NixFileReference::default(), attribute: AttributePath::toplevel() }
    }
}

/// Reads one token into `nref` (see [`apply_token`]).
fn read_token(nref: &mut NixReference, token: &str)
    ensures
        final(nref)@ == apply_token(old(nref)@, token@),
{
    proof {
        reveal_strlit("f");
        reveal_strlit("file");
    }
    match split_once_char(token, '=') {
        Some((k, v)) => {
            if str_eq(k.as_str(), "f") || str_eq(k.as_str(), "file") {
                nref.file.filename = Some(v);
            } else {
                nref.file.repository.fetch_args.insert(k, v);
            }
        },
        None => {
            nref.attribute = AttributePath::from(token);
        },
    }
}

impl NixReference {
    /// Whether `self` and `other` name the same attribute of the same file.
    pub fn same_as(&self, other: &Self) -> (r: bool)
        ensures
            r == (self@ == other@),
    {
        self.file.same_as(&other.file) && self.attribute.same_as(&other.attribute)
    }

    pub fn new(file: NixFileReference, attribute: AttributePath) -> (r: Self)
        ensures
            r@ == (NixReferenceView { file: file@, attribute: attribute@ }),
    {
        NixReference { file, attribute }
    }

    pub fn file(&self) -> (r: &NixFileReference)
        ensures
            *r == self.file,
    {
        &self.file
    }

    pub fn attribute(&self) -> (r: &AttributePath)
        ensures
            *r == self.attribute,
    {
        &self.attribute
    }

    /// The repository that the reference points into.
    pub fn repository(&self) -> (r: &RepositoryReference)
        ensures
            *r == self.file.repository,
    {
        &self.file.repository
    }

    /// The file name within the repository, if one is given.
    pub fn filename(&self) -> (r: Option<&String>)
        ensures
            match r {
                Some(f) => self.file.filename == Some(*f),
                None => self.file.filename is None,
            },
    {
        self.file.filename()
    }

    /// The location of the repository.
    pub fn location(&self) -> (r: &RepositoryLocation)
        ensures
            *r == self.file.repository.location,
    {
        &self.file.repository.location
    }

    /// The reference that the resource identifier `s` names (see [`parse_reference`]), with
    /// `local_dir` telling whether the first token names an existing directory that is not a
    /// git checkout. Fails with `InvalidLocationSpec(s)` exactly where `parse_reference` has no
    /// result.
    pub fn parse(s: &str, aliases: &Aliases, local_dir: bool) -> (r: Result<Self, NieError>)
        ensures
            match r {
                Ok(x) => parse_reference(s@, aliases@, local_dir) == Some(x@),
                Err(e) => parse_reference(s@, aliases@, local_dir) is None && (e
                    matches NieError::InvalidLocationSpec(m) && m@ == s@),
            },
    {
        let tokens = split_str(s, '#');
        let ghost tv = tokens@.map_values(|t: String| t@);
        proof {
            crate::text::lemma_split_acc_nonempty(Seq::empty(), s@, '#');
        }
        assert(tv[0] == tokens@[0]@);
        let mut nref = match aliases.get(tokens[0].as_str()) {
            Some(a) => a.clone(),
            None => match RepositoryLocation::parse(tokens[0].as_str(), local_dir) {
                Ok(l) => NixReference {
                    file: NixFileReference {
                        repository: RepositoryReference::new(l),
                        filename: None,
                    },
                    attribute: AttributePath::toplevel(),
                },
                Err(_) => {
                    return Err(NieError::InvalidLocationSpec(owned(s)));
                },
            },
        };
        let ghost start = nref@;
        let mut i: usize = 1;
        assert(tv.skip(1) == tv.drop_first());
        while i < tokens.len()
            invariant
                tv == tokens@.map_values(|t: String| t@),
                1 <= i <= tv.len(),
                apply_tokens(nref@, tv.skip(i as int)) == apply_tokens(start, tv.drop_first()),
            decreases tokens.len() - i,
        {
            assert(tv.skip(i as int)[0] == tokens@[i as int]@);
            assert(tv.skip(i as int).drop_first() == tv.skip(i + 1));
            read_token(&mut nref, tokens[i].as_str());
            i = i + 1;
        }
        assert(tv.skip(i as int).len() == 0);
        Ok(nref)
    }

    /// The reference that the resource identifier `s` names (`FromStr`): as
    /// [`NixReference::parse()`], where the file system tells whether an unprefixed first
    /// token that is no alias names a local directory; which it tells is not stated.
    pub fn from_str(s: &str, aliases: &Aliases) -> (r: Result<Self, NieError>)
        ensures
            exists|local_dir: bool|
                #![trigger parse_reference(s@, aliases@, local_dir)]
                match r {
                    Ok(x) => parse_reference(s@, aliases@, local_dir) == Some(x@),
                    Err(e) => parse_reference(s@, aliases@, local_dir) is None && (e
                        matches NieError::InvalidLocationSpec(m) && m@ == s@),
                },
    {
        let url = match split_once_char(s, '#') {
            Some((u, _)) => u,
            None => owned(s),
        };
        let local_dir = if aliases.get(url.as_str()).is_none() && RepositoryLocation::needs_probe(
            url.as_str(),
        ) {
            RepositoryLocation::probe_local_dir(url.as_str())
        } else {
            false
        };
        Self::parse(s, aliases, local_dir)
    }

    /// The resource identifier of this reference (its `Display` form).
    pub fn to_string(&self) -> (r: String)
        ensures
            r@ == reference_text(self@),
    {
        proof {
            reveal_strlit("#");
        }
        let mut s = self.file.repository.location.to_string();
        if !self.attribute.is_toplevel() {
            push_str_hash(&mut s);
            let a = self.attribute.to_string();
            crate::text::push_str(&mut s, a.as_str());
        }
        push_filename_text(&mut s, &self.file.filename);
        push_args_text(&mut s, &self.file.repository.fetch_args);
        s
    }
}

/// Appends `#`.
fn push_str_hash(s: &mut String)
    ensures
        final(s)@ == old(s)@ + seq!['#'],
{
    proof {
        reveal_strlit("#");
    }
    crate::text::push_str(s, "#");
}

} // verus!
