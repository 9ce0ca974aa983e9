//! Errors of `nie`.
use vstd::prelude::*;

use crate::json::JsonValue;
use crate::location::{AttributePath, NixReference, RepositoryReference};

verus! {

#[verifier::external_type_specification]
#[verifier::external_body]
pub struct ExJsonError(serde_json::Error);

/// The result of an operation of `nie`.
pub type NieResult<T> = Result<T, NieError>;

/// The errors that `nie`'s logic reports.
#[derive(Debug)]
pub enum NieError {
    /// Shell completions could not be generated.
    Completions(String),
    /// A manual page could not be written.
    Man(String),
    /// An external command failed with its exit code.
    ExternalCommand(String, i32),
    /// Nix did not deliver data that was expected.
    MissingNixData(String),
    /// A text could not be parsed as JSON.
    Json(serde_json::Error),
    /// A JSON value did not have the expected shape.
    JsonUnfolding(JsonValue),
    /// An output attribute is broken.
    BrokenAttribute(AttributePath),
    /// An attribute does not exist in a file.
    AttributeNotFound(String, AttributePath),
    /// A path should have been built but does not exist.
    BuiltPathMissing(String),
    /// No output paths were found.
    NoOutputPath(Box<NixReference>),
    /// A resource identifier could not be read.
    InvalidLocationSpec(String),
    /// A Nix file does not exist in a checkout.
    NixFileNotFound(String, String),
    /// An alias is unknown.
    AliasNotFound(String),
    /// A target directory exists already.
    DirectoryAlreadyExists(String),
    /// The main program of an output was not found.
    ProgramNotFound(Box<NixReference>),
    /// The manual page of an output was not found.
    ManNotFound(Box<NixReference>),
    /// No checks were found.
    NoChecksFound(Box<NixReference>),
    /// An environment variable is not set.
    EnvVarMissing(String),
    /// A pinned shell points outside the Nix store.
    PinnedShellNotInStore(String),
    /// No pinned shell exists in a directory.
    PinnedShellNotFound(String),
    /// A pinned shell is not safe to enter.
    PinnedShellNotSafe(String),
    /// A repository could not be fetched.
    FetchFailure(RepositoryReference),
    /// Several repositories could not be fetched.
    FetchFailureMultiple(usize),
    /// There is no directory to return to after leaving an automatic shell.
    NoReverseCd,
}

} // verus!
