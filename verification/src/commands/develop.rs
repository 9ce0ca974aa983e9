//! Entering development shells.
use vstd::prelude::*;

use crate::aliases::Aliases;
use crate::error::NieError;
use crate::eval_args::EvalArgs;
use crate::location::reference::parse_reference;
use crate::location::NixReference;
use crate::text::{opt_view, owned};

verus! {

/// The resource identifier of a project's own `shell.nix`, used without copying.
pub const SHELL_NIX_REFERENCE: &'static str = "file://.#file=shell.nix#nocopy=true";

/// Enters a development shell from a Nix repository.
pub struct DevelopCommand {
    /// The reference of the shell.
    pub reference: NixReference,
    /// A command to run inside the shell.
    pub command: Option<String>,
    /// Run the editor inside the shell.
    pub editor: bool,
    /// Use the local `shell.nix`.
    pub shell_nix: bool,
    /// Pin the shell and exit.
    pub pin: bool,
    /// Update an existing pin.
    pub update_pin: bool,
    /// Do not use a pinned shell.
    pub no_pinned: bool,
    /// Remove the pin.
    pub unpin: bool,
    /// How the file is evaluated.
    pub eval_args: EvalArgs,
    /// Additional arguments for Nix.
    pub extra_args: Vec<String>,
}

impl DevelopCommand {
    /// The reference of the shell: the project's own `shell.nix` where asked for, the given
    /// reference otherwise.
    pub fn target_reference(&self, aliases: &Aliases) -> (r: Result<NixReference, NieError>)
        ensures
            self.shell_nix ==> match r {
                Ok(x) => parse_reference(SHELL_NIX_REFERENCE@, aliases@, false) == Some(x@),
                Err(e) => parse_reference(SHELL_NIX_REFERENCE@, aliases@, false) is None && (e
                    matches NieError::InvalidLocationSpec(m) && m@ == SHELL_NIX_REFERENCE@),
            },
            !self.shell_nix ==> (r matches Ok(x) && x@ == self.reference@),
    {
        if self.shell_nix {
            NixReference::parse(SHELL_NIX_REFERENCE, aliases, false)
        } else {
            Ok(self.reference.clone())
        }
    }

    /// The command run inside the shell: the editor where asked for, the given command
    /// otherwise.
    pub fn shell_command(&self) -> (r: Option<String>)
        ensures
            self.editor ==> opt_view(r) == Some("$EDITOR"@),
            !self.editor ==> opt_view(r) == opt_view(self.command),
    {
        if self.editor {
            Some(owned("$EDITOR"))
        } else {
            crate::text::clone_opt(&self.command)
        }
    }

    /// Whether a pinned shell of the project may be entered in place of `reference`: only for
    /// the toplevel, where pins are not refused and the local `shell.nix` is not asked for.
    pub fn may_enter_pin(&self, reference: &NixReference) -> (r: bool)
        ensures
            r == (reference@.attribute.len() == 0 && !self.no_pinned && !self.shell_nix),
    {
        reference.attribute().is_toplevel() && !self.no_pinned && !self.shell_nix
    }
}

} // verus!
