//! What can go wrong, and how it is told.

use vstd::prelude::*;

verus! {

/// Why a worktree could not be listed, added or removed.
#[derive(Debug, PartialEq, Eq)]
pub enum WorktreeError {
    /// The worktree listing is not UTF-8.
    DecodingWorktreeList,
    /// A worktree's HEAD is not an object ID.
    ParsingHeadOid,
    /// There is no home directory.
    HomeNotSet,
    /// The repository has no working copy.
    NoWorkingCopy,
    /// No usable character is left of a worktree name.
    UnusableName(String),
    /// A target stands for no commit.
    NoCommits(String),
    /// A target stands for more than one commit.
    MultipleHeads(String),
    /// A branch could not be looked up, for the given reason.
    FindingBranch(String),
    /// There is no worktree of that name.
    UnresolvedWorktree(String),
    /// None of the worktrees is the current one.
    NoCurrentWorktree,
    /// A worktree was created and is not among the worktrees.
    CreatedWorktreeNotFound,
    /// There is no shell to run a hook with.
    NoShell,
}

/// A `WorktreeError` with the characters of its text.
pub enum ErrorModel {
    DecodingWorktreeList,
    ParsingHeadOid,
    HomeNotSet,
    NoWorkingCopy,
    UnusableName(Seq<char>),
    NoCommits(Seq<char>),
    MultipleHeads(Seq<char>),
    FindingBranch(Seq<char>),
    UnresolvedWorktree(Seq<char>),
    NoCurrentWorktree,
    CreatedWorktreeNotFound,
    NoShell,
}

impl View for WorktreeError {
    type V = ErrorModel;

    open spec fn view(&self) -> ErrorModel {
        match self {
            WorktreeError::DecodingWorktreeList => ErrorModel::DecodingWorktreeList,
            WorktreeError::ParsingHeadOid => ErrorModel::ParsingHeadOid,
            WorktreeError::HomeNotSet => ErrorModel::HomeNotSet,
            WorktreeError::NoWorkingCopy => ErrorModel::NoWorkingCopy,
            WorktreeError::UnusableName(name) => ErrorModel::UnusableName(name@),
            WorktreeError::NoCommits(target) => ErrorModel::NoCommits(target@),
            WorktreeError::MultipleHeads(target) => ErrorModel::MultipleHeads(target@),
            WorktreeError::FindingBranch(reason) => ErrorModel::FindingBranch(reason@),
            WorktreeError::UnresolvedWorktree(target) => ErrorModel::UnresolvedWorktree(target@),
            WorktreeError::NoCurrentWorktree => ErrorModel::NoCurrentWorktree,
            WorktreeError::CreatedWorktreeNotFound => ErrorModel::CreatedWorktreeNotFound,
            WorktreeError::NoShell => ErrorModel::NoShell,
        }
    }
}

/// What the user is told.
pub open spec fn error_message(error: ErrorModel) -> Seq<char> {
    match error {
        ErrorModel::DecodingWorktreeList => "Decoding worktree list"@,
        ErrorModel::ParsingHeadOid => "Parsing worktree HEAD OID"@,
        ErrorModel::HomeNotSet => "$HOME is not set"@,
        ErrorModel::NoWorkingCopy => "Repository does not have a working copy path"@,
        ErrorModel::UnusableName(name) => "Worktree name '"@ + name
            + "' is not usable after sanitization"@,
        ErrorModel::NoCommits(target) => "Target '"@ + target
            + "' did not resolve to any commits"@,
        ErrorModel::MultipleHeads(target) => "Target '"@ + target
            + "' resolved to multiple heads"@,
        ErrorModel::FindingBranch(reason) => reason,
        ErrorModel::UnresolvedWorktree(target) => "Could not resolve worktree target '"@ + target
            + "'"@,
        ErrorModel::NoCurrentWorktree => "Could not determine the current worktree"@,
        ErrorModel::CreatedWorktreeNotFound => "Created worktree was not discoverable afterwards"@,
        ErrorModel::NoShell => "could not get sh"@,
    }
}

/// `middle` between `before` and `after`.
pub fn enclose(before: &str, middle: &str, after: &str) -> (text: String)
    ensures
        text@ == before@ + middle@ + after@,
{
    let mut text = before.to_owned();
    text.append(middle);
    text.append(after);
    text
}

impl WorktreeError {
    /// What the user is told.
    pub fn message(&self) -> (message: String)
        ensures
            message@ == error_message(self@),
    {
        match self {
            WorktreeError::DecodingWorktreeList => "Decoding worktree list".to_owned(),
            WorktreeError::ParsingHeadOid => "Parsing worktree HEAD OID".to_owned(),
            WorktreeError::HomeNotSet => "$HOME is not set".to_owned(),
            WorktreeError::NoWorkingCopy => "Repository does not have a working copy path".to_owned(),
            WorktreeError::UnusableName(name) => enclose(
                "Worktree name '",
                name.as_str(),
                "' is not usable after sanitization",
            ),
            WorktreeError::NoCommits(target) => enclose(
                "Target '",
                target.as_str(),
                "' did not resolve to any commits",
            ),
            WorktreeError::MultipleHeads(target) => enclose(
                "Target '",
                target.as_str(),
                "' resolved to multiple heads",
            ),
            WorktreeError::FindingBranch(reason) => reason.clone(),
            WorktreeError::UnresolvedWorktree(target) => enclose(
                "Could not resolve worktree target '",
                target.as_str(),
                "'",
            ),
            WorktreeError::NoCurrentWorktree => "Could not determine the current worktree".to_owned(),
            WorktreeError::CreatedWorktreeNotFound => "Created worktree was not discoverable afterwards".to_owned(),
            WorktreeError::NoShell => "could not get sh".to_owned(),
        }
    }
}

/// What was asked for in vain is told between quotes.
pub proof fn messages_quote_what_was_asked_for(asked: Seq<char>)
    ensures
        error_message(ErrorModel::UnusableName(asked)) == "Worktree name '"@ + asked
            + "' is not usable after sanitization"@,
        error_message(ErrorModel::NoCommits(asked)) == "Target '"@ + asked
            + "' did not resolve to any commits"@,
        error_message(ErrorModel::MultipleHeads(asked)) == "Target '"@ + asked
            + "' resolved to multiple heads"@,
        error_message(ErrorModel::UnresolvedWorktree(asked))
            == "Could not resolve worktree target '"@ + asked + "'"@,
        error_message(ErrorModel::FindingBranch(asked)) == asked,
{
}

} // verus!
