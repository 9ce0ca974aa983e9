//! Showing and updating aliases.
use vstd::prelude::*;

use crate::aliases::Aliases;
use crate::error::NieError;
use crate::location::reference::reference_text;
use crate::location::NixReference;
use crate::text::{lookup_first, owned, push_str};

verus! {

broadcast use vstd::seq_lib::group_seq_properties;

/// Shows and updates aliases.
pub struct AliasesCommand {
    /// A new alias for the user: its name and the resource identifier it stands for.
    pub add: Option<Vec<String>>,
    /// An alias to look up.
    pub query: Option<String>,
    /// List the files that hold aliases.
    pub files: bool,
    /// Open the user's alias file in the editor.
    pub edit: bool,
    /// Arguments passed on.
    pub args: Vec<String>,
}

/// The line of an alias file that lets `name` stand for `reference`.
pub open spec fn alias_line_of(name: Seq<char>, reference: Seq<char>) -> Seq<char> {
    name + " "@ + reference
}

impl AliasesCommand {
    /// The line of an alias file that lets `name` stand for `reference`: the name, a space and
    /// the reference's resource identifier.
    pub fn alias_line(name: &str, reference: &NixReference) -> (r: String)
        ensures
            r@ == alias_line_of(name@, reference_text(reference@)),
    {
        let mut s = owned(name);
        push_str(&mut s, " ");
        let t = reference.to_string();
        push_str(&mut s, t.as_str());
        s
    }

    /// The reference that the alias `name` stands for; an unknown alias is an error that names
    /// it.
    pub fn query_alias<'a>(aliases: &'a Aliases, name: &str) -> (r: Result<&'a NixReference, NieError>)
        ensures
            match r {
                Ok(x) => lookup_first(aliases@, name@) == Some(x@),
                Err(e) => lookup_first(aliases@, name@) is None && (e matches NieError::AliasNotFound(n)
                    && n@ == name@),
            },
    {
        match aliases.get(name) {
            Some(x) => Ok(x),
            None => Err(NieError::AliasNotFound(owned(name))),
        }
    }

    /// The lines that list all aliases (see [`alias_line_of`]), in the order of the table.
    pub fn listing(aliases: &Aliases) -> (r: Vec<String>)
        ensures
            r@.len() == aliases@.len(),
            forall|i: int|
                0 <= i < r@.len() ==> #[trigger] r@[i]@ == alias_line_of(
                    aliases@[i].0,
                    reference_text(aliases@[i].1),
                ),
    {
        let mut r: Vec<String> = Vec::new();
        let mut i: usize = 0;
        while i < aliases.len()
            invariant
                0 <= i <= aliases@.len(),
                r@.len() == i,
                forall|j: int|
                    0 <= j < i ==> #[trigger] r@[j]@ == alias_line_of(
                        aliases@[j].0,
                        reference_text(aliases@[j].1),
                    ),
            decreases aliases@.len() - i,
        {
            let (name, reference) = aliases.entry(i);
            r.push(Self::alias_line(name.as_str(), reference));
            i = i + 1;
        }
        r
    }
}

} // verus!
