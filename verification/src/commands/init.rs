//! Initializing a project by copying a template.
use vstd::prelude::*;

use crate::eval_args::EvalArgs;
use crate::location::NixReference;
use crate::text::{owned, push_str};

verus! {

/// Initializes a project by copying a template.
pub struct InitCommand {
    /// The reference of the template.
    pub reference: NixReference,
    /// The directory to initialize.
    pub destination: String,
    /// Use the template's repository as it is.
    pub direct: bool,
    /// How the template's file is evaluated.
    pub eval_args: EvalArgs,
}

impl InitCommand {
    /// The announcement of copying the template `template` to `destination`.
    pub fn copying(template: &str, destination: &str) -> (r: String)
        ensures
            r@ == "Copying "@ + template@ + " to "@ + destination@,
    {
        let mut s = owned("Copying ");
        push_str(&mut s, template);
        push_str(&mut s, " to ");
        push_str(&mut s, destination);
        s
    }
}

} // verus!
