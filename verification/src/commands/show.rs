//! Showing the outputs of Nix repositories.
use vstd::prelude::*;

use crate::location::attribute_path::attribute_path_text;
use crate::location::reference::reference_text;
use crate::location::{AttributePath, NixReference};
use crate::text::{owned, push_char, push_str};

verus! {

broadcast use vstd::seq_lib::group_seq_properties;

/// Shows the outputs of Nix repositories.
pub struct ShowCommand {
    /// The references to show.
    pub refs: Vec<NixReference>,
    /// How deep to look.
    pub depth: u32,
    /// Show names only, not full paths.
    pub short: bool,
    /// Fail on broken packages.
    pub reject_broken: bool,
    /// Force flake compatibility.
    pub flake_compat: bool,
}

/// `n` spaces.
pub open spec fn spaces(n: nat) -> Seq<char> {
    Seq::new(n, |i: int| ' ')
}

/// The line that shows an attribute: indented by two spaces per component, its name or its
/// full path; for a flake, paths below `outputs` other than `outputs` itself are not shown.
pub open spec fn show_line_of(attr: Seq<Seq<char>>, flake_compat: bool, short: bool) -> Option<Seq<char>> {
    if flake_compat && attr.len() > 1 && attr[0] == "outputs"@ {
        None
    } else {
        Some(
            spaces(attr.len() * 2) + if short {
                if attr.len() > 0 {
                    attr.last()
                } else {
                    Seq::empty()
                }
            } else {
                attribute_path_text(attr)
            },
        )
    }
}

impl ShowCommand {
    /// The line that shows `attr` of a file (see [`show_line_of`]).
    pub fn show_line(attr: &AttributePath, flake_compat: bool, short: bool) -> (r: Option<String>)
        requires
            attr@.len() * 2 <= usize::MAX,
        ensures
            match r {
                Some(l) => show_line_of(attr@, flake_compat, short) == Some(l@),
                None => show_line_of(attr@, flake_compat, short) is None,
            },
    {
        if flake_compat && attr.len() > 1 {
            match attr.first() {
                Some(f) => {
                    if crate::text::str_eq(f, "outputs") {
                        return None;
                    }
                },
                None => {},
            }
        }
        let width = attr.depth() * 2;
        let mut s = String::new();
        let mut i: usize = 0;
        while i < width
            invariant
                0 <= i <= width,
                s@ == spaces(i as nat),
            decreases width - i,
        {
            push_char(&mut s, ' ');
            assert(s@ =~= spaces((i + 1) as nat));
            i = i + 1;
        }
        if short {
            match attr.name() {
                Some(n) => push_str(&mut s, n),
                None => {
                    assert(s@ + Seq::<char>::empty() == s@);
                },
            }
        } else {
            let t = attr.to_string();
            push_str(&mut s, t.as_str());
        }
        Some(s)
    }

    /// The announcement of the outputs of `reference`.
    pub fn outputs_announcement(reference: &NixReference) -> (r: String)
        ensures
            r@ == "Outputs in \""@ + reference_text(reference@) + "\":"@,
    {
        let mut s = owned("Outputs in \"");
        let t = reference.to_string();
        push_str(&mut s, t.as_str());
        push_str(&mut s, "\":");
        s
    }
}

} // verus!
