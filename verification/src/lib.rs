//! Linked Git worktrees and pull-request status, as branchless commands see them.
//!
//! The library reads the porcelain worktree listing, answers questions about
//! the worktrees in it, decides what the `worktree` subcommands do, and renders
//! the status of a pull request. It performs no input or output itself: callers
//! hand it what Git, the file system and GitHub answered, as plain values. Paths
//! are those of Unix systems.

pub mod text;
pub mod path;
pub mod oid;
pub mod reference;
pub mod error;
pub mod worktree;
pub mod listing;
pub mod repo;
pub mod style;
pub mod github_status;
pub mod naming;
pub mod hook;
pub mod removal;
pub mod summary;
pub mod target;
pub mod addition;
