//! `hmm` runs a command in a workspace: a copy-on-write clone of the working
//! directory that the command may change as it likes, while the directory and
//! the rest of the system stay as they are.
//!
//! This crate holds the logic of `hmm`: naming and finding workspaces, the
//! paths and tables it shows, the git invocations it makes and what it decides
//! from their outcomes, and the sandbox it confines a command to.

pub mod cmd;
pub mod components;
pub mod error;
pub mod git;
pub mod invocation;
pub mod landlock;
pub mod making;
pub mod name;
pub mod path;
pub mod sandbox;
pub mod workspace;
pub mod text;
