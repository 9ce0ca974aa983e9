//! Entering pinned shells automatically.
use vstd::prelude::*;

use crate::error::NieError;
use crate::eval_args::EvalArgs;

verus! {

/// Enters a project's pinned shell automatically.
pub struct AutoShellCommand {
    /// Try to update the shell before entering it.
    pub update: bool,
    /// Print `exit` where the current directory lies outside the project.
    pub auto_exit: bool,
    /// How the shell is evaluated.
    pub eval_args: EvalArgs,
    /// Additional arguments for Nix.
    pub extra_args: Vec<String>,
}

/// Whether the components of `p` start with those of `base`, as `std::path::Path::starts_with`
/// tells.
pub uninterp spec fn spec_path_starts_with(p: Seq<char>, base: Seq<char>) -> bool;

/// `std::path::Path::starts_with`. The contract claims that the answer depends on the two
/// paths alone (the comparison is lexical, by components); which components match is left
/// unstated.
#[verifier::external_body]
fn path_starts_with(p: &str, base: &str) -> (r: bool)
    ensures
        r == spec_path_starts_with(p@, base@),
{
    std::path::Path::new(p).starts_with(base)
}

impl AutoShellCommand {
    /// Whether the current directory `cwd` lies outside the project directory, so that the
    /// shell is to be left.
    pub fn left_project(cwd: &str, project_dir: &str) -> (r: bool)
        ensures
            r == !spec_path_starts_with(cwd@, project_dir@),
    {
        !path_starts_with(cwd, project_dir)
    }

    /// The error for a pin that is not safe to enter: its directory.
    pub fn unsafe_pin_error(pin_dir: String) -> (r: NieError)
        ensures
            r matches NieError::PinnedShellNotSafe(d) && d@ == pin_dir@,
    {
        NieError::PinnedShellNotSafe(pin_dir)
    }
}

} // verus!
