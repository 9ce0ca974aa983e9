//! Evaluating expressions of Nix repositories.
use vstd::prelude::*;

use crate::eval_args::EvalArgs;
use crate::location::NixReference;

verus! {

/// Evaluates an expression from a Nix repository.
pub struct EvaluateCommand {
    /// The reference of the expression.
    pub reference: NixReference,
    /// How the file is evaluated.
    pub eval_args: EvalArgs,
    /// Additional arguments for Nix.
    pub extra_args: Vec<String>,
}

} // verus!
