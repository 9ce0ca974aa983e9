//! The decisions that `nie`'s subcommands make.
pub mod aliases;
pub mod auto_shell;
pub mod building;
pub mod check;
pub mod dev_shell;
pub mod develop;
pub mod evaluate;
pub mod init;
pub mod initialize;
pub mod man;
pub mod run;
pub mod shell;
pub mod show;
