//! Core logic of `nie`, a wrapper around the stable Nix command-line tools.

pub mod aliases;
pub mod commands;
pub mod error;
pub mod eval_args;
pub mod fetch;
pub mod interact;
pub mod json;
pub mod location;
pub mod nix;
pub mod nix_laws;
pub mod paths;
pub mod pinning;
pub mod registry;
pub mod store;
pub mod text;
