//! Initializing a project from a template.
use vstd::prelude::*;

use crate::error::NieError;
use crate::eval_args::EvalArgs;
use crate::location::{AttributePath, NixReference};
use crate::paths::{join_path, path_join};
use crate::text::{lines, lines_of, owned};

verus! {

/// What a project is initialized from: a template reference, or a `shell.nix` of its own.
pub struct TemplateType {
    /// A reference to use as a template.
    pub reference: Option<NixReference>,
    /// Create a `shell.nix` file.
    pub shell_nix: bool,
}

/// Initializes a new Nix project from a template.
pub struct InitializeCommand {
    /// What the project is initialized from.
    pub template_type: TemplateType,
    /// The directory to initialize.
    pub destination: String,
    /// Use the template's repository as it is.
    pub direct: bool,
    /// How the template's file is evaluated.
    pub eval_args: EvalArgs,
}

/// The permission bits of a copied file: those of the copied one, readable and writable by
/// the owner, and nothing for group and others.
pub open spec fn copy_mode_of(mode: u32) -> u32 {
    (mode | 0o600) & 0o700
}

impl InitializeCommand {
    /// The `shell.nix` to create in `parent`.
    pub fn shell_nix_path(parent: &str) -> (r: String)
        ensures
            r@ == path_join(parent@, "shell.nix"@),
    {
        join_path(parent, "shell.nix")
    }

    /// The permission bits of a copy (see [`copy_mode_of`]): the owner may read and write it,
    /// may execute it where the copied file allowed that to the owner, and nobody else may do
    /// anything.
    pub fn copy_mode(mode: u32) -> (r: u32)
        ensures
            r == copy_mode_of(mode),
            r & 0o600 == 0o600,
            r & 0o100 == mode & 0o100,
            r & !0o700u32 == 0,
    {
        let r = (mode | 0o600) & 0o700;
        assert(r & 0o600 == 0o600) by (bit_vector)
            requires
                r == (mode | 0o600) & 0o700,
        ;
        assert(r & 0o100 == mode & 0o100) by (bit_vector)
            requires
                r == (mode | 0o600) & 0o700,
        ;
        assert(r & !0o700u32 == 0) by (bit_vector)
            requires
                r == (mode | 0o600) & 0o700,
        ;
        r
    }

    /// What copying a directory to `to` does with the target: `Ok(true)` where it does not exist
    /// and is to be created, `Ok(false)` where the toplevel target exists and is empty; a
    /// target that exists otherwise is an error that names it.
    pub fn directory_target(to: &str, exists: bool, toplevel: bool, empty: bool) -> (r: Result<bool, NieError>)
        ensures
            !exists ==> r == Ok::<bool, NieError>(true),
            exists && toplevel && empty ==> r == Ok::<bool, NieError>(false),
            exists && !(toplevel && empty) ==> (r matches Err(NieError::DirectoryAlreadyExists(d))
                && d@ == to@),
    {
        if !exists {
            Ok(true)
        } else if !toplevel || !empty {
            Err(NieError::DirectoryAlreadyExists(owned(to)))
        } else {
            Ok(false)
        }
    }

    /// The attribute below a template output that names its files: `path`.
    pub fn template_path_attr(attr: &AttributePath) -> (r: AttributePath)
        ensures
            r@ == attr@.push("path"@),
    {
        attr.child(owned("path"))
    }

    /// The template's directory from the output of evaluating it: its first line; no line is
    /// an error that names the reference.
    pub fn template_dir(reference: &NixReference, output: &str) -> (r: Result<String, NieError>)
        ensures
            lines(output@).len() > 0 ==> (r matches Ok(d) && d@ == lines(output@)[0]),
            lines(output@).len() == 0 ==> (r matches Err(NieError::NoOutputPath(x)) && x@
                == reference@),
    {
        let ls = lines_of(output);
        if ls.len() > 0 {
            assert(ls@.map_values(|l: String| l@)[0] == ls@[0]@);
            Ok(ls[0].clone())
        } else {
            Err(NieError::NoOutputPath(Box::new(reference.clone())))
        }
    }
}

} // verus!
