//! Data structures for describing the location of Nix outputs
//!
//! A [`NixReference`] contains a [`NixFileReference`] which contains a [`RepositoryReference`]
//! which contains a [`RepositoryLocation`].
use vstd::prelude::*;

pub mod attribute_path;
pub mod fetch_args;
pub mod laws;
pub mod file_reference;
pub mod reference;
pub mod repo_location;
pub mod repo_reference;

pub use attribute_path::AttributePath;
pub use fetch_args::FetchArgs;
pub use file_reference::NixFileReference;
pub use reference::NixReference;
pub use repo_location::RepositoryLocation;
pub use repo_reference::RepositoryReference;

verus! {

/// Prefix of Codeberg identifiers.
pub const RES_PREFIX_CODEBERG: &'static str = "codeberg://";

/// Prefix of identifiers of other Forgejo instances.
pub const RES_PREFIX_FORGEJO: &'static str = "forgejo://";

/// Prefix of git identifiers.
pub const RES_PREFIX_GIT: &'static str = "git://";

/// Prefix of GitHub identifiers.
pub const RES_PREFIX_GITHUB: &'static str = "github://";

/// Prefix of local directory identifiers.
pub const RES_PREFIX_LOCAL: &'static str = "file://";

/// Prefix of tarball URLs.
pub const RES_PREFIX_TAR: &'static str = "https://";

} // verus!
