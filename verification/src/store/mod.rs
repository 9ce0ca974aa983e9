//! What `nie` works with in the Nix store: a [`NixOutput`] comes from a [`NixFile`], which comes
//! from a [`Checkout`].
pub mod checkout;
pub mod file;
pub mod output;

pub use checkout::Checkout;
pub use file::NixFile;
pub use output::NixOutput;
