//! Entering the development shell of a reference.
use vstd::prelude::*;

use crate::location::NixReference;

verus! {

/// Enters the development shell of a reference.
pub struct DevShellCommand {
    /// The reference of the shell.
    pub reference: NixReference,
    /// Additional arguments for Nix.
    pub nix_args: Vec<String>,
}

} // verus!
