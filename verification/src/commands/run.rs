//! Running programs of Nix repositories.
use vstd::prelude::*;

use crate::error::NieError;
use crate::eval_args::EvalArgs;
use crate::location::NixReference;

verus! {

/// Runs an executable from a Nix repository.
pub struct RunCommand {
    /// The reference of the package.
    pub reference: NixReference,
    /// Open the program's manual page instead.
    pub man: bool,
    /// How the file is evaluated.
    pub eval_args: EvalArgs,
    /// Arguments passed to the program.
    pub args: Vec<String>,
}

impl RunCommand {
    /// The error for a package without a manual page.
    pub fn man_not_found(&self) -> (r: NieError)
        ensures
            r matches NieError::ManNotFound(x) && x@ == self.reference@,
    {
        NieError::ManNotFound(Box::new(self.reference.clone()))
    }

    /// The error for a package without a program.
    pub fn program_not_found(&self) -> (r: NieError)
        ensures
            r matches NieError::ProgramNotFound(x) && x@ == self.reference@,
    {
        NieError::ProgramNotFound(Box::new(self.reference.clone()))
    }
}

} // verus!
