//! Entering shells with packages of Nix repositories.
use vstd::prelude::*;

use crate::eval_args::EvalArgs;
use crate::location::NixReference;

verus! {

/// Enters a shell containing packages from Nix repositories.
pub struct ShellCommand {
    /// The references of the packages.
    pub refs: Vec<NixReference>,
    /// A command to run inside the shell.
    pub command: Option<String>,
    /// How the files are evaluated.
    pub eval_args: EvalArgs,
    /// Additional arguments for Nix.
    pub extra_args: Vec<String>,
}

} // verus!
