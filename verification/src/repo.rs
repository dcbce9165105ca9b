//! What the library needs to know of a repository and of commands run in it.

use vstd::prelude::*;

use crate::path::{opt_path, FilePath};

verus! {

/// The exit code of a command.
#[derive(Clone, Copy, Debug, PartialEq, Eq, Structural)]
pub struct ExitCode {
    /// The number the command exited with.
    pub code: isize,
}

impl ExitCode {
    /// Whether the command succeeded.
    pub fn is_success(&self) -> (success: bool)
        ensures
            success == (self.code == 0),
    {
        self.code == 0
    }
}

/// Where a repository is.
#[derive(Debug)]
pub struct RepoPaths {
    /// The repository's own directory.
    pub git_dir: FilePath,
    /// The working copy of the repository, if it has one.
    pub working_copy: Option<FilePath>,
    /// For the repository of a linked worktree, the repository it is linked to.
    pub parent: Option<ParentRepo>,
}

/// Where the repository is that a linked worktree belongs to.
#[derive(Debug)]
pub struct ParentRepo {
    /// The working copy of the repository, if it has one.
    pub working_copy: Option<FilePath>,
}

impl RepoPaths {
    /// The bytes of the path of the main working copy.
    pub open spec fn main_bytes(&self) -> Option<Seq<u8>> {
        match self.parent {
            Some(parent) => opt_path(parent.working_copy),
            None => opt_path(self.working_copy),
        }
    }

    /// The working copy of the parent repository or, where there is no parent,
    /// of this one.
    pub fn main_working_copy(&self) -> (path: Option<FilePath>)
        ensures
            opt_path(path) == self.main_bytes(),
    {
        match &self.parent {
            Some(parent) => clone_path(&parent.working_copy),
            None => clone_path(&self.working_copy),
        }
    }

    /// Where to run commands: in the working copy, or else in the repository's
    /// own directory.
    pub fn working_directory(&self) -> (path: FilePath)
        ensures
            path@ == (match self.working_copy {
                Some(working_copy) => working_copy@,
                None => self.git_dir@,
            }),
    {
        match &self.working_copy {
            Some(working_copy) => working_copy.clone(),
            None => self.git_dir.clone(),
        }
    }
}

/// A copy of a path that may be missing.
pub fn clone_path(path: &Option<FilePath>) -> (copy: Option<FilePath>)
    ensures
        opt_path(copy) == opt_path(*path),
{
    match path {
        Some(path) => Some(path.clone()),
        None => None,
    }
}

/// The main working copy is that of the parent, where there is a parent, even if
/// that has none; else it is the repository's own.
pub proof fn main_working_copy_is_that_of_the_parent(repo: RepoPaths)
    ensures
        repo.parent matches Some(parent) ==> repo.main_bytes() == (match parent.working_copy {
            Some(path) => Some(path.bytes@),
            None => None,
        }),
        repo.parent is None ==> repo.main_bytes() == (match repo.working_copy {
            Some(path) => Some(path.bytes@),
            None => None,
        }),
{
}

} // verus!
