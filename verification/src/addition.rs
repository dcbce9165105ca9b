//! Adding a worktree.
//!
//! What is asked of the outside and in which order depends on the answers, so
//! adding a worktree is a machine: it takes the answer to what it last asked for
//! and says what to do next.

use vstd::prelude::*;

use crate::error::{enclose, ErrorModel, WorktreeError};
use crate::listing::{best_path, canonicalize_best_effort};
use crate::oid::{oid_texts, NonZeroOid};
use crate::path::{byte_strings, opt_path, same_path, FilePath};
use crate::reference::{
    branch_short_name, local_branch, opt_name, short_name_of_local_branch, ReferenceName,
};
use crate::repo::ExitCode;
use crate::target::{
    branch_found, find_local_branch, resolve_target_oid, target_commit, BranchLookup, LookupModel,
};
use crate::text::{opt_text, shown_text, texts};
use crate::worktree::{
    branch_is_found_where_active, first_where, is_active_branch, lemma_first_is_found,
    lemma_first_where, EntryModel, WorktreeEntry, WorktreeSnapshot,
};

verus! {

/// What the user asks for.
#[derive(Debug)]
pub struct AddRequest {
    /// The name of the new worktree.
    pub name: String,
    /// What to check out in it, if not the current commit.
    pub target: Option<String>,
    /// The branch to create for it, if any.
    pub new_branch: Option<String>,
}

/// An `AddRequest` with the characters of its texts.
pub struct RequestModel {
    pub name: Seq<char>,
    pub target: Option<Seq<char>>,
    pub new_branch: Option<Seq<char>>,
}

impl View for AddRequest {
    type V = RequestModel;

    open spec fn view(&self) -> RequestModel {
        RequestModel {
            name: self.name@,
            target: opt_text(self.target),
            new_branch: opt_text(self.new_branch),
        }
    }
}

/// What was asked for last, and what is known by then.
#[derive(Debug)]
pub enum AddPhase {
    /// A local branch with the name of the target.
    Branch,
    /// The heads of the commits that the target stands for.
    Commits,
    /// The worktrees there are.
    Worktrees {
        /// What Git is to check out, if not the current commit.
        git_target: Option<String>,
        /// The local branch that the target names, if it does.
        target_branch: Option<ReferenceName>,
    },
    /// A path for the new worktree.
    Path {
        /// What Git is to check out, if not the current commit.
        git_target: Option<String>,
        /// The branch that the new worktree will be on, if any.
        branch: Option<ReferenceName>,
    },
    /// The exit code of Git.
    Git {
        /// The path of the new worktree.
        path: FilePath,
    },
    /// The worktrees there are by now.
    Updated {
        /// The path of the new worktree.
        path: FilePath,
    },
    /// The exit code of the hook.
    Hook {
        /// The new worktree.
        entry: WorktreeEntry,
    },
    /// Nothing.
    Finished,
}

/// An `AddPhase` with what its parts hold.
pub enum PhaseModel {
    Branch,
    Commits,
    Worktrees { git_target: Option<Seq<char>>, target_branch: Option<Seq<char>> },
    Path { git_target: Option<Seq<char>>, branch: Option<Seq<char>> },
    Git { path: Seq<u8> },
    Updated { path: Seq<u8> },
    Hook { entry: EntryModel },
    Finished,
}

impl View for AddPhase {
    type V = PhaseModel;

    open spec fn view(&self) -> PhaseModel {
        match self {
            AddPhase::Branch => PhaseModel::Branch,
            AddPhase::Commits => PhaseModel::Commits,
            AddPhase::Worktrees { git_target, target_branch } => PhaseModel::Worktrees {
                git_target: opt_text(*git_target),
                target_branch: opt_name(*target_branch),
            },
            AddPhase::Path { git_target, branch } => PhaseModel::Path {
                git_target: opt_text(*git_target),
                branch: opt_name(*branch),
            },
            AddPhase::Git { path } => PhaseModel::Git { path: path@ },
            AddPhase::Updated { path } => PhaseModel::Updated { path: path@ },
            AddPhase::Hook { entry } => PhaseModel::Hook { entry: entry@ },
            AddPhase::Finished => PhaseModel::Finished,
        }
    }
}

/// The answer to what was asked for.
#[derive(Debug)]
pub enum AddEvent {
    /// What came of looking for the branch.
    Branch(BranchLookup),
    /// The heads of the commits that the target stands for.
    Commits(Vec<NonZeroOid>),
    /// The worktrees there are.
    Worktrees(WorktreeSnapshot),
    /// The path for the new worktree.
    Path(FilePath),
    /// How Git exited.
    GitExited(ExitCode),
    /// The worktrees there are by now.
    Updated {
        /// The worktrees.
        snapshot: WorktreeSnapshot,
        /// What the path of the new worktree was canonicalized to; `None` where
        /// that failed.
        canonical: Option<FilePath>,
    },
    /// How the hook exited; with success where there is none.
    HookExited(ExitCode),
}

/// An `AddEvent` with what its parts hold.
pub enum EventModel {
    Branch(LookupModel),
    Commits(Seq<Seq<char>>),
    Worktrees(Seq<EntryModel>),
    Path(Seq<u8>),
    GitExited(int),
    Updated { entries: Seq<EntryModel>, canonical: Option<Seq<u8>> },
    HookExited(int),
}

impl View for AddEvent {
    type V = EventModel;

    open spec fn view(&self) -> EventModel {
        match self {
            AddEvent::Branch(lookup) => EventModel::Branch(lookup@),
            AddEvent::Commits(heads) => EventModel::Commits(oid_texts(heads@)),
            AddEvent::Worktrees(snapshot) => EventModel::Worktrees(snapshot@),
            AddEvent::Path(path) => EventModel::Path(path@),
            AddEvent::GitExited(exit_code) => EventModel::GitExited(exit_code.code as int),
            AddEvent::Updated { snapshot, canonical } => EventModel::Updated {
                entries: snapshot@,
                canonical: opt_path(*canonical),
            },
            AddEvent::HookExited(exit_code) => EventModel::HookExited(exit_code.code as int),
        }
    }
}

/// What to do next.
#[derive(Debug)]
pub enum AddAction {
    /// Look for a local branch of that name.
    FindBranch(String),
    /// Resolve that target to commits, and take their heads.
    ResolveTarget(String),
    /// List the worktrees.
    ListWorktrees,
    /// Choose a path for a worktree of that name.
    ChoosePath(String),
    /// Run Git with these arguments.
    RunGit(Vec<Vec<u8>>),
    /// List the worktrees again, and canonicalize this path.
    FindCreated(FilePath),
    /// Run the hook for the new worktree.
    RunHook(WorktreeEntry),
    /// Tell the user and exit with success.
    Succeed(String),
    /// Tell the user on the error stream, line by line, and exit with this code.
    Refuse {
        /// The code to exit with.
        exit_code: ExitCode,
        /// What to tell the user.
        messages: Vec<String>,
    },
    /// Exit with this code.
    Exit(ExitCode),
    /// Give up.
    Fail(WorktreeError),
}

/// An `AddAction` with what its parts hold.
pub enum ActionModel {
    FindBranch(Seq<char>),
    ResolveTarget(Seq<char>),
    ListWorktrees,
    ChoosePath(Seq<char>),
    RunGit(Seq<Seq<u8>>),
    FindCreated(Seq<u8>),
    RunHook(EntryModel),
    Succeed(Seq<char>),
    Refuse { exit_code: int, messages: Seq<Seq<char>> },
    Exit(int),
    Fail(ErrorModel),
}

impl View for AddAction {
    type V = ActionModel;

    open spec fn view(&self) -> ActionModel {
        match self {
            AddAction::FindBranch(target) => ActionModel::FindBranch(target@),
            AddAction::ResolveTarget(target) => ActionModel::ResolveTarget(target@),
            AddAction::ListWorktrees => ActionModel::ListWorktrees,
            AddAction::ChoosePath(name) => ActionModel::ChoosePath(name@),
            AddAction::RunGit(args) => ActionModel::RunGit(byte_strings(args@)),
            AddAction::FindCreated(path) => ActionModel::FindCreated(path@),
            AddAction::RunHook(entry) => ActionModel::RunHook(entry@),
            AddAction::Succeed(message) => ActionModel::Succeed(message@),
            AddAction::Refuse { exit_code, messages } => ActionModel::Refuse {
                exit_code: exit_code.code as int,
                messages: texts(messages@),
            },
            AddAction::Exit(exit_code) => ActionModel::Exit(exit_code.code as int),
            AddAction::Fail(error) => ActionModel::Fail(error@),
        }
    }
}

/// Whether an event answers what was asked for.
pub open spec fn answers(phase: PhaseModel, event: EventModel) -> bool {
    match (phase, event) {
        (PhaseModel::Branch, EventModel::Branch(_)) => true,
        (PhaseModel::Commits, EventModel::Commits(_)) => true,
        (PhaseModel::Worktrees { .. }, EventModel::Worktrees(_)) => true,
        (PhaseModel::Path { .. }, EventModel::Path(_)) => true,
        (PhaseModel::Git { .. }, EventModel::GitExited(_)) => true,
        (PhaseModel::Updated { .. }, EventModel::Updated { .. }) => true,
        (PhaseModel::Hook { .. }, EventModel::HookExited(_)) => true,
        _ => false,
    }
}

/// The branch that the new worktree will be on: the one to create or else the one
/// that the target names.
pub open spec fn branch_of_worktree(
    new_branch: Option<Seq<char>>,
    target_branch: Option<Seq<char>>,
) -> Option<Seq<char>> {
    match new_branch {
        Some(new_branch) => Some(local_branch(new_branch)),
        None => target_branch,
    }
}

/// The arguments that add a worktree at `path`. With neither a new branch nor
/// one that the target names, the worktree is detached.
pub open spec fn add_args(
    new_branch: Option<Seq<char>>,
    branch: Option<Seq<char>>,
    path: Seq<u8>,
    git_target: Option<Seq<char>>,
) -> Seq<Seq<u8>> {
    seq![vstd::utf8::encode_utf8("worktree"@), vstd::utf8::encode_utf8("add"@)] + match new_branch {
        Some(new_branch) => seq![
            vstd::utf8::encode_utf8("-b"@),
            vstd::utf8::encode_utf8(new_branch),
        ],
        None => if branch is None {
            seq![vstd::utf8::encode_utf8("--detach"@)]
        } else {
            seq![]
        },
    } + seq![path] + match git_target {
        Some(git_target) => seq![vstd::utf8::encode_utf8(git_target)],
        None => seq![],
    }
}

/// What the user is told of a branch that some worktree is on.
pub open spec fn active_branch_messages(branch: Seq<char>) -> Seq<Seq<char>> {
    seq![
        "Branch '"@ + branch_short_name(branch) + "' is already active in another worktree."@,
        "Use `git wt list` to find that worktree."@,
    ]
}

/// What the user is told of a worktree at `path`.
pub open spec fn path_message(action: Seq<char>, path: Seq<u8>) -> Seq<char> {
    action + " "@ + shown_text(path)
}

/// Whether an entry is at `path`.
pub open spec fn is_at_path(path: Seq<u8>) -> spec_fn(EntryModel) -> bool {
    |entry: EntryModel| same_path(entry.path, path)
}

/// How adding a worktree starts: with looking for the branch that the target
/// names, if there is a target.
pub open spec fn add_start(request: RequestModel) -> (PhaseModel, ActionModel) {
    match request.target {
        Some(target) => (PhaseModel::Branch, ActionModel::FindBranch(target)),
        None => (
            PhaseModel::Worktrees { git_target: None, target_branch: None },
            ActionModel::ListWorktrees,
        ),
    }
}

/// Giving up.
pub open spec fn failed(error: ErrorModel) -> (PhaseModel, ActionModel) {
    (PhaseModel::Finished, ActionModel::Fail(error))
}

/// A target that names a branch is checked out by its name; another is resolved
/// to a commit first.
pub open spec fn after_branch(request: RequestModel, lookup: LookupModel) -> (
    PhaseModel,
    ActionModel,
) {
    match branch_found(lookup) {
        Err(error) => failed(error),
        Ok(Some(branch)) => (
            PhaseModel::Worktrees { git_target: request.target, target_branch: Some(branch) },
            ActionModel::ListWorktrees,
        ),
        Ok(None) => (PhaseModel::Commits, ActionModel::ResolveTarget(request.target->0)),
    }
}

/// A target that does not name a branch stands for one commit.
pub open spec fn after_commits(request: RequestModel, heads: Seq<Seq<char>>) -> (
    PhaseModel,
    ActionModel,
) {
    match target_commit(request.target->0, heads) {
        Err(error) => failed(error),
        Ok(oid) => (
            PhaseModel::Worktrees { git_target: Some(oid), target_branch: None },
            ActionModel::ListWorktrees,
        ),
    }
}

/// A branch that some worktree is on is refused.
pub open spec fn after_worktrees(
    request: RequestModel,
    git_target: Option<Seq<char>>,
    target_branch: Option<Seq<char>>,
    entries: Seq<EntryModel>,
) -> (PhaseModel, ActionModel) {
    let branch = branch_of_worktree(request.new_branch, target_branch);
    if branch is Some && is_active_branch(entries, branch->0) {
        (
            PhaseModel::Finished,
            ActionModel::Refuse { exit_code: 1, messages: active_branch_messages(branch->0) },
        )
    } else {
        (PhaseModel::Path { git_target, branch }, ActionModel::ChoosePath(request.name))
    }
}

/// Where Git succeeds, the new worktree is looked for; where it fails, its exit
/// code is passed on.
pub open spec fn after_git(path: Seq<u8>, exit_code: int) -> (PhaseModel, ActionModel) {
    if exit_code == 0 {
        (PhaseModel::Updated { path }, ActionModel::FindCreated(path))
    } else {
        (PhaseModel::Finished, ActionModel::Exit(exit_code))
    }
}

/// The new worktree is the one at the path that it was created at.
pub open spec fn after_update(
    path: Seq<u8>,
    entries: Seq<EntryModel>,
    canonical: Option<Seq<u8>>,
) -> (PhaseModel, ActionModel) {
    match first_where(entries, is_at_path(best_path(path, canonical))) {
        Some(entry) => (PhaseModel::Hook { entry }, ActionModel::RunHook(entry)),
        None => failed(ErrorModel::CreatedWorktreeNotFound),
    }
}

/// Where the hook fails, its exit code is passed on.
pub open spec fn after_hook(entry: EntryModel, exit_code: int) -> (PhaseModel, ActionModel) {
    if exit_code == 0 {
        (
            PhaseModel::Finished,
            ActionModel::Succeed(path_message("Created worktree at:"@, entry.path)),
        )
    } else {
        (PhaseModel::Finished, ActionModel::Exit(exit_code))
    }
}

/// What comes after an answer.
pub open spec fn add_next(request: RequestModel, phase: PhaseModel, event: EventModel) -> (
    PhaseModel,
    ActionModel,
) {
    match (phase, event) {
        (PhaseModel::Branch, EventModel::Branch(lookup)) => after_branch(request, lookup),
        (PhaseModel::Commits, EventModel::Commits(heads)) => after_commits(request, heads),
        (
            PhaseModel::Worktrees { git_target, target_branch },
            EventModel::Worktrees(entries),
        ) => after_worktrees(request, git_target, target_branch, entries),
        (PhaseModel::Path { git_target, branch }, EventModel::Path(path)) => (
            PhaseModel::Git { path },
            ActionModel::RunGit(add_args(request.new_branch, branch, path, git_target)),
        ),
        (PhaseModel::Git { path }, EventModel::GitExited(exit_code)) => after_git(path, exit_code),
        (PhaseModel::Updated { path }, EventModel::Updated { entries, canonical }) => after_update(
            path,
            entries,
            canonical,
        ),
        (PhaseModel::Hook { entry }, EventModel::HookExited(exit_code)) => after_hook(
            entry,
            exit_code,
        ),
        _ => arbitrary(),
    }
}

/// Adding a worktree, up to what was asked for last.
#[derive(Debug)]
pub struct AddWorktree {
    request: AddRequest,
    phase: AddPhase,
}

/// The line that tells the user of a worktree.
pub fn print_worktree_path(action: &str, entry: &WorktreeEntry) -> (message: String)
    ensures
        message@ == path_message(action@, entry@.path),
{
    enclose(action, " ", entry.path.to_text_lossy().as_str())
}

fn clone_text(text: &Option<String>) -> (copy: Option<String>)
    ensures
        opt_text(copy) == opt_text(*text),
{
    match text {
        Some(text) => Some(text.clone()),
        None => None,
    }
}

fn git_add_args(
    new_branch: &Option<String>,
    branch: &Option<ReferenceName>,
    path: &FilePath,
    git_target: &Option<String>,
) -> (args: Vec<Vec<u8>>)
    ensures
        byte_strings(args@) == add_args(
            opt_text(*new_branch),
            opt_name(*branch),
            path@,
            opt_text(*git_target),
        ),
{
    let mut args: Vec<Vec<u8>> = Vec::new();
    args.push("worktree".as_bytes_vec());
    args.push("add".as_bytes_vec());
    if let Some(new_branch) = new_branch {
        args.push("-b".as_bytes_vec());
        args.push(new_branch.as_str().as_bytes_vec());
    } else if branch.is_none() {
        args.push("--detach".as_bytes_vec());
    }
    args.push(path.clone().bytes);
    if let Some(git_target) = git_target {
        args.push(git_target.as_str().as_bytes_vec());
    }
    assert(byte_strings(args@) =~= add_args(
        opt_text(*new_branch),
        opt_name(*branch),
        path@,
        opt_text(*git_target),
    ));
    args
}

fn find_by_path(snapshot: &WorktreeSnapshot, path: &FilePath) -> (entry: Option<WorktreeEntry>)
    ensures
        match entry {
            Some(entry) => first_where(snapshot@, is_at_path(path@)) == Some(entry@),
            None => first_where(snapshot@, is_at_path(path@)) is None,
        },
{
    let mut i: usize = 0;
    assert(snapshot@.skip(0) =~= snapshot@);
    while i < snapshot.entries.len()
        invariant
            i <= snapshot.entries.len(),
            first_where(snapshot@.skip(i as int), is_at_path(path@)) == first_where(
                snapshot@,
                is_at_path(path@),
            ),
        decreases snapshot.entries.len() - i,
    {
        assert(snapshot@.skip(i as int).drop_first() =~= snapshot@.skip(i + 1));
        if snapshot.entries[i].path.is_same(path) {
            return Some(snapshot.entries[i].clone());
        }
        i = i + 1;
    }
    None
}

impl AddWorktree {
    /// What the user asked for.
    pub closed spec fn request(&self) -> RequestModel {
        self.request@
    }

    /// What was asked for last.
    pub closed spec fn phase(&self) -> PhaseModel {
        self.phase@
    }

    /// Whether a target is there where one is needed.
    #[verifier::type_invariant]
    spec fn has_target(&self) -> bool {
        (self.phase is Branch || self.phase is Commits) ==> self.request.target is Some
    }

    /// Start to add a worktree.
    pub fn start(request: AddRequest) -> (result: (AddWorktree, AddAction))
        ensures
            result.0.request() == request@,
            (result.0.phase(), result.1@) == add_start(request@),
    {
        match clone_text(&request.target) {
            Some(target) => (
                AddWorktree { request, phase: AddPhase::Branch },
                AddAction::FindBranch(target),
            ),
            None => (
                AddWorktree {
                    request,
                    phase: AddPhase::Worktrees { git_target: None, target_branch: None },
                },
                AddAction::ListWorktrees,
            ),
        }
    }

    fn fail(request: AddRequest, error: WorktreeError) -> (result: (AddWorktree, AddAction))
        ensures
            result.0.request() == request@,
            (result.0.phase(), result.1@) == failed(error@),
    {
        (AddWorktree { request, phase: AddPhase::Finished }, AddAction::Fail(error))
    }

    /// Go on with the answer to what was asked for.
    pub fn step(self, event: AddEvent) -> (result: (AddWorktree, AddAction))
        requires
            answers(self.phase(), event@),
        ensures
            result.0.request() == self.request(),
            (result.0.phase(), result.1@) == add_next(self.request(), self.phase(), event@),
    {
        proof {
            use_type_invariant(&self);
        }
        let request = self.request;
        match (self.phase, event) {
            (AddPhase::Branch, AddEvent::Branch(lookup)) => match find_local_branch(&lookup) {
                Err(error) => AddWorktree::fail(request, error),
                Ok(Some(branch)) => {
                    let git_target = clone_text(&request.target);
                    (
                        AddWorktree {
                            request,
                            phase: AddPhase::Worktrees { git_target, target_branch: Some(branch) },
                        },
                        AddAction::ListWorktrees,
                    )
                },
                Ok(None) => {
                    let target = clone_text(&request.target).unwrap();
                    (
                        AddWorktree { request, phase: AddPhase::Commits },
                        AddAction::ResolveTarget(target),
                    )
                },
            },
            (AddPhase::Commits, AddEvent::Commits(heads)) => {
                let target = clone_text(&request.target).unwrap();
                match resolve_target_oid(target.as_str(), &heads) {
                    Err(error) => AddWorktree::fail(request, error),
                    Ok(oid) => (
                        AddWorktree {
                            request,
                            phase: AddPhase::Worktrees {
                                git_target: Some(oid.as_str().to_owned()),
                                target_branch: None,
                            },
                        },
                        AddAction::ListWorktrees,
                    ),
                }
            },
            (
                AddPhase::Worktrees { git_target, target_branch },
                AddEvent::Worktrees(snapshot),
            ) => {
                let branch = match &request.new_branch {
                    Some(new_branch) => Some(ReferenceName::from_local_branch(new_branch.as_str())),
                    None => target_branch,
                };
                if let Some(branch) = &branch {
                    proof {
                        branch_is_found_where_active(snapshot@, branch@);
                    }
                    if snapshot.find_by_branch(branch).is_some() {
                        let mut messages: Vec<String> = Vec::new();
                        messages.push(
                            enclose(
                                "Branch '",
                                branch.short_name().as_str(),
                                "' is already active in another worktree.",
                            ),
                        );
                        messages.push("Use `git wt list` to find that worktree.".to_owned());
                        assert(texts(messages@) =~= active_branch_messages(branch@));
                        return (
                            AddWorktree { request, phase: AddPhase::Finished },
                            AddAction::Refuse { exit_code: ExitCode { code: 1 }, messages },
                        );
                    }
                }
                let name = request.name.clone();
                (
                    AddWorktree { request, phase: AddPhase::Path { git_target, branch } },
                    AddAction::ChoosePath(name),
                )
            },
            (AddPhase::Path { git_target, branch }, AddEvent::Path(path)) => {
                let args = git_add_args(&request.new_branch, &branch, &path, &git_target);
                (AddWorktree { request, phase: AddPhase::Git { path } }, AddAction::RunGit(args))
            },
            (AddPhase::Git { path }, AddEvent::GitExited(exit_code)) => {
                if exit_code.is_success() {
                    let created = path.clone();
                    (
                        AddWorktree { request, phase: AddPhase::Updated { path } },
                        AddAction::FindCreated(created),
                    )
                } else {
                    (
                        AddWorktree { request, phase: AddPhase::Finished },
                        AddAction::Exit(exit_code),
                    )
                }
            },
            (AddPhase::Updated { path }, AddEvent::Updated { snapshot, canonical }) => {
                let path = canonicalize_best_effort(path, canonical);
                match find_by_path(&snapshot, &path) {
                    Some(entry) => {
                        let created = entry.clone();
                        (
                            AddWorktree { request, phase: AddPhase::Hook { entry } },
                            AddAction::RunHook(created),
                        )
                    },
                    None => AddWorktree::fail(request, WorktreeError::CreatedWorktreeNotFound),
                }
            },
            (AddPhase::Hook { entry }, AddEvent::HookExited(exit_code)) => {
                if exit_code.is_success() {
                    let message = print_worktree_path("Created worktree at:", &entry);
                    (
                        AddWorktree { request, phase: AddPhase::Finished },
                        AddAction::Succeed(message),
                    )
                } else {
                    (
                        AddWorktree { request, phase: AddPhase::Finished },
                        AddAction::Exit(exit_code),
                    )
                }
            },
            (phase, _) => {
                // No other event answers what was asked for.
                assert(false);
                (AddWorktree { request, phase }, AddAction::ListWorktrees)
            },
        }
    }
}

/// How far adding a worktree has come.
pub open spec fn progress(phase: PhaseModel) -> nat {
    match phase {
        PhaseModel::Branch => 0,
        PhaseModel::Commits => 1,
        PhaseModel::Worktrees { .. } => 2,
        PhaseModel::Path { .. } => 3,
        PhaseModel::Git { .. } => 4,
        PhaseModel::Updated { .. } => 5,
        PhaseModel::Hook { .. } => 6,
        PhaseModel::Finished => 7,
    }
}

/// Every answer brings adding a worktree further. So it comes to an end, and
/// nothing is asked for or done twice.
pub proof fn every_answer_makes_progress(
    request: RequestModel,
    phase: PhaseModel,
    event: EventModel,
)
    requires
        answers(phase, event),
    ensures
        progress(phase) < progress(add_next(request, phase, event).0) <= 7,
{
}

/// Where the answers lead, and what they lead to be done.
pub open spec fn add_run(request: RequestModel, events: Seq<EventModel>) -> (
    PhaseModel,
    ActionModel,
)
    decreases events.len(),
{
    if events.len() == 0 {
        add_start(request)
    } else {
        add_next(request, add_run(request, events.drop_last()).0, events.last())
    }
}

/// Whether each event answers what was asked for.
pub open spec fn is_run(request: RequestModel, events: Seq<EventModel>) -> bool
    decreases events.len(),
{
    events.len() == 0 || (is_run(request, events.drop_last()) && answers(
        add_run(request, events.drop_last()).0,
        events.last(),
    ))
}

/// What was done last is what the answer that is awaited belongs to.
pub open spec fn awaits(action: ActionModel, phase: PhaseModel) -> bool {
    match action {
        ActionModel::FindBranch(_) => phase is Branch,
        ActionModel::ResolveTarget(_) => phase is Commits,
        ActionModel::ListWorktrees => phase is Worktrees,
        ActionModel::ChoosePath(_) => phase is Path,
        ActionModel::RunGit(_) => phase is Git,
        ActionModel::FindCreated(_) => phase is Updated,
        ActionModel::RunHook(_) => phase is Hook,
        _ => phase is Finished,
    }
}

/// Whatever happens, the machine awaits the answer to what it asked for.
pub proof fn actions_are_awaited(request: RequestModel, events: Seq<EventModel>)
    requires
        is_run(request, events),
    ensures
        awaits(add_run(request, events).1, add_run(request, events).0),
{
}

/// Git is only run where the worktrees were listed before, and none of them is on
/// the branch that the new worktree will be on. It is run with the path that was
/// chosen.
pub proof fn git_is_not_run_on_an_active_branch(request: RequestModel, events: Seq<EventModel>)
    requires
        is_run(request, events),
        add_run(request, events).1 is RunGit,
    ensures
        events.len() >= 2,
        events[events.len() - 2] is Worktrees,
        events.last() is Path,
        exists|branch: Option<Seq<char>>, git_target: Option<Seq<char>>|
            {
                &&& add_run(request, events).1 == ActionModel::RunGit(
                    #[trigger] add_args(
                        request.new_branch,
                        branch,
                        events.last()->Path_0,
                        git_target,
                    ),
                )
                &&& request.new_branch matches Some(new_branch) ==> branch == Some(
                    local_branch(new_branch),
                )
                &&& branch matches Some(branch) ==> !is_active_branch(
                    events[events.len() - 2]->Worktrees_0,
                    branch,
                )
            },
{
    assert(events.len() > 0);
    let before = events.drop_last();
    let phase = add_run(request, before).0;
    assert(phase is Path);
    assert(is_run(request, before));
    assert(before.len() > 0);
    assert(before.last() == events[events.len() - 2]);
    let earlier = add_run(request, before.drop_last()).0;
    assert(earlier is Worktrees);
    let branch = phase->Path_branch;
    let git_target = phase->Path_git_target;
    assert(add_run(request, events).1 == ActionModel::RunGit(
        add_args(request.new_branch, branch, events.last()->Path_0, git_target),
    ));
}

/// A new branch that some worktree is on already is refused, whatever was asked
/// for besides, and the user is told the name of the branch.
pub proof fn active_new_branch_is_refused(
    request: RequestModel,
    events: Seq<EventModel>,
    branch: Seq<char>,
)
    requires
        is_run(request, events),
        events.len() > 0,
        events.last() is Worktrees,
        request.new_branch == Some(branch),
        is_active_branch(events.last()->Worktrees_0, local_branch(branch)),
    ensures
        add_run(request, events) == (
            PhaseModel::Finished,
            ActionModel::Refuse {
                exit_code: 1,
                messages: seq![
                    "Branch '"@ + branch + "' is already active in another worktree."@,
                    "Use `git wt list` to find that worktree."@,
                ],
            },
        ),
{
    short_name_of_local_branch(branch);
}

/// A target that is a local branch which some worktree is on already is refused,
/// unless a new branch is to be created from it.
pub proof fn active_target_branch_is_refused(
    request: RequestModel,
    branch: Seq<char>,
    entries: Seq<EntryModel>,
)
    requires
        request.target is Some,
        request.new_branch is None,
        is_active_branch(entries, local_branch(branch)),
    ensures
        ({
            let events = seq![
                EventModel::Branch(LookupModel::Found(local_branch(branch))),
                EventModel::Worktrees(entries),
            ];
            &&& is_run(request, events)
            &&& add_run(request, events) == (
                PhaseModel::Finished,
                ActionModel::Refuse {
                    exit_code: 1,
                    messages: seq![
                        "Branch '"@ + branch + "' is already active in another worktree."@,
                        "Use `git wt list` to find that worktree."@,
                    ],
                },
            )
        }),
{
    reveal_with_fuel(add_run, 3);
    reveal_with_fuel(is_run, 3);
    short_name_of_local_branch(branch);
    let first = seq![EventModel::Branch(LookupModel::Found(local_branch(branch)))];
    let second = first.push(EventModel::Worktrees(entries));
    assert(first.drop_last() =~= Seq::<EventModel>::empty());
    assert(second.drop_last() =~= first);
    assert(second =~= seq![
        EventModel::Branch(LookupModel::Found(local_branch(branch))),
        EventModel::Worktrees(entries),
    ]);
}

/// A target that names no branch is resolved before Git is run, and Git gets the
/// commit that it stands for in its place.
pub proof fn targets_are_resolved_before_git_is_run(
    request: RequestModel,
    lookup: LookupModel,
    heads: Seq<Seq<char>>,
    entries: Seq<EntryModel>,
    path: Seq<u8>,
)
    requires
        request.target is Some,
        branch_found(lookup) == Ok::<Option<Seq<char>>, ErrorModel>(None),
        heads.len() == 1,
        request.new_branch matches Some(new_branch) ==> !is_active_branch(
            entries,
            local_branch(new_branch),
        ),
    ensures
        ({
            let events = seq![
                EventModel::Branch(lookup),
                EventModel::Commits(heads),
                EventModel::Worktrees(entries),
                EventModel::Path(path),
            ];
            &&& is_run(request, events)
            &&& add_run(request, events).1 == ActionModel::RunGit(
                add_args(
                    request.new_branch,
                    branch_of_worktree(request.new_branch, None),
                    path,
                    Some(heads[0]),
                ),
            )
        }),
{
    reveal_with_fuel(add_run, 5);
    reveal_with_fuel(is_run, 5);
    let first = seq![EventModel::Branch(lookup)];
    let second = first.push(EventModel::Commits(heads));
    let third = second.push(EventModel::Worktrees(entries));
    let fourth = third.push(EventModel::Path(path));
    assert(first.drop_last() =~= Seq::<EventModel>::empty());
    assert(second.drop_last() =~= first);
    assert(third.drop_last() =~= second);
    assert(fourth.drop_last() =~= third);
    assert(fourth =~= seq![
        EventModel::Branch(lookup),
        EventModel::Commits(heads),
        EventModel::Worktrees(entries),
        EventModel::Path(path),
    ]);
}

/// Adding a worktree only succeeds where Git succeeded, the new worktree was then
/// found at the path it was created at, and the hook succeeded for it.
pub proof fn success_means_created(request: RequestModel, events: Seq<EventModel>)
    requires
        is_run(request, events),
        add_run(request, events).1 is Succeed,
    ensures
        events.len() >= 4,
        events.last() == EventModel::HookExited(0),
        events[events.len() - 3] == EventModel::GitExited(0),
        events[events.len() - 4] matches EventModel::Path(path)
            && events[events.len() - 2] matches EventModel::Updated { entries, canonical }
            && first_where(entries, is_at_path(best_path(path, canonical))) matches Some(entry)
            && add_run(request, events).1 == ActionModel::Succeed(
            path_message("Created worktree at:"@, entry.path),
        ),
{
    assert(events.len() > 0);
    let hook = events.drop_last();
    assert(add_run(request, hook).0 is Hook);
    assert(is_run(request, hook));
    assert(hook.len() > 0);
    assert(hook.last() == events[events.len() - 2]);
    let updated = hook.drop_last();
    assert(add_run(request, updated).0 is Updated);
    assert(is_run(request, updated));
    assert(updated.len() > 0);
    assert(updated.last() == events[events.len() - 3]);
    let git = updated.drop_last();
    assert(add_run(request, git).0 is Git);
    assert(is_run(request, git));
    assert(git.len() > 0);
    assert(git.last() == events[events.len() - 4]);
    assert(add_run(request, git.drop_last()).0 is Path);
}

/// Whether `events` are the answers up to which Git's target is known: none without
/// a target, the branch that the target names, or the one commit that a target
/// stands for which names no branch.
spec fn resolves(
    request: RequestModel,
    events: Seq<EventModel>,
    git_target: Option<Seq<char>>,
    target_branch: Option<Seq<char>>,
) -> bool {
    ||| {
        &&& request.target is None
        &&& events.len() == 0
        &&& git_target is None
        &&& target_branch is None
    }
    ||| {
        &&& request.target is Some
        &&& events.len() == 1
        &&& events[0] matches EventModel::Branch(LookupModel::Found(branch))
            && target_branch == Some(branch)
        &&& git_target == request.target
    }
    ||| {
        &&& request.target is Some
        &&& events.len() == 2
        &&& events[0] matches EventModel::Branch(lookup) && (lookup is NotFound
            || lookup is InvalidName)
        &&& events[1] matches EventModel::Commits(heads) && heads.len() == 1 && git_target == Some(
            heads[0],
        )
        &&& target_branch is None
    }
}

/// What was answered up to each phase.
proof fn lemma_answers_so_far(request: RequestModel, events: Seq<EventModel>)
    requires
        is_run(request, events),
    ensures
        match add_run(request, events).0 {
            PhaseModel::Branch => events.len() == 0 && request.target is Some,
            PhaseModel::Commits => {
                &&& events.len() == 1
                &&& request.target is Some
                &&& events[0] matches EventModel::Branch(lookup) && (lookup is NotFound
                    || lookup is InvalidName)
            },
            PhaseModel::Worktrees { git_target, target_branch } => resolves(
                request,
                events,
                git_target,
                target_branch,
            ),
            PhaseModel::Path { git_target, branch } => {
                &&& events.len() > 0
                &&& events.last() is Worktrees
                &&& add_run(request, events.drop_last()).0 matches PhaseModel::Worktrees {
                    git_target: known,
                    target_branch,
                } && known == git_target && branch == branch_of_worktree(
                    request.new_branch,
                    target_branch,
                ) && resolves(request, events.drop_last(), git_target, target_branch)
            },
            PhaseModel::Git { path } => events.len() > 0 && events.last() == EventModel::Path(path),
            PhaseModel::Updated { path } => {
                &&& events.len() > 1
                &&& events.last() == EventModel::GitExited(0)
                &&& events[events.len() - 2] == EventModel::Path(path)
            },
            _ => true,
        },
    decreases events.len(),
{
    if events.len() > 0 {
        let before = events.drop_last();
        assert(is_run(request, before));
        lemma_answers_so_far(request, before);
        let phase = add_run(request, before).0;
        assert(answers(phase, events.last()));
        if before.len() > 0 {
            assert(before[0] == events[0]);
            assert(before.last() == events[events.len() - 2]);
        }
        assert(events.last() == events[events.len() - 1]);
    }
}

/// Adding a worktree starts with looking for a branch that the target names, where
/// there is a target, and else with listing the worktrees.
pub proof fn adding_starts_with_the_target(request: RequestModel)
    ensures
        request.target matches Some(target) ==> add_run(request, seq![]).1
            == ActionModel::FindBranch(target),
        request.target is None ==> add_run(request, seq![]).1 is ListWorktrees,
{
}

/// A target that names a branch is not resolved any further. Another is resolved to
/// its heads, and it takes exactly one of them to go on; with none or several, the
/// target is told. A lookup that failed ends it all.
pub proof fn targets_name_a_branch_or_one_commit(
    request: RequestModel,
    events: Seq<EventModel>,
    target: Seq<char>,
)
    requires
        is_run(request, events),
        events.len() > 0,
        request.target == Some(target),
    ensures
        ({
            let action = add_run(request, events).1;
            &&& events.last() matches EventModel::Branch(lookup) ==> match lookup {
                LookupModel::Found(_) => action is ListWorktrees,
                LookupModel::Failed(reason) => action == ActionModel::Fail(
                    ErrorModel::FindingBranch(reason),
                ),
                _ => action == ActionModel::ResolveTarget(target),
            }
            &&& events.last() matches EventModel::Commits(heads) ==> {
                &&& heads.len() == 1 ==> action is ListWorktrees
                &&& heads.len() == 0 ==> action == ActionModel::Fail(ErrorModel::NoCommits(target))
                &&& heads.len() > 1 ==> action == ActionModel::Fail(
                    ErrorModel::MultipleHeads(target),
                )
            }
        }),
{
    lemma_answers_so_far(request, events.drop_last());
}

/// Once the worktrees are listed, a branch is refused where some worktree is on it:
/// the new branch or, without one, the branch that the target names. In every other
/// case a path is chosen for the name that was asked for.
pub proof fn only_active_branches_are_refused(
    request: RequestModel,
    events: Seq<EventModel>,
    branch: Seq<char>,
)
    requires
        is_run(request, events),
        events.len() > 0,
        events.last() is Worktrees,
    ensures
        ({
            let action = add_run(request, events).1;
            let entries = events.last()->Worktrees_0;
            let is_taken = exists|i: int|
                0 <= i < entries.len() && (#[trigger] entries[i]).branch_name == Some(branch);
            let is_wanted = match request.new_branch {
                Some(new_branch) => branch == "refs/heads/"@ + new_branch,
                None => events[0] == EventModel::Branch(LookupModel::Found(branch)),
            };
            let wants_none = request.new_branch is None && !(events[0] matches EventModel::Branch(
                LookupModel::Found(_),
            ));
            &&& is_wanted && is_taken ==> (action matches ActionModel::Refuse {
                exit_code,
                messages,
            } && exit_code == 1 && messages == seq![
                "Branch '"@ + branch_short_name(branch)
                    + "' is already active in another worktree."@,
                "Use `git wt list` to find that worktree."@,
            ])
            &&& (is_wanted && !is_taken) || wants_none ==> action == ActionModel::ChoosePath(
                request.name,
            )
        }),
{
    let before = events.drop_last();
    lemma_answers_so_far(request, before);
    assert(is_run(request, before));
    if before.len() > 0 {
        assert(before[0] == events[0]);
    }
}

/// The arguments that Git is run with, whatever answers led there. They are
/// `worktree add`, then `-b` and the new branch, or `--detach` where there is no new
/// branch and the target names none, then the path that was chosen, and last the
/// target: by its own name where it names a branch, and else by the one commit that
/// it stands for. Without a target, the path comes last.
pub proof fn git_is_run_on_path_and_target(request: RequestModel, events: Seq<EventModel>)
    requires
        is_run(request, events),
        add_run(request, events).1 is RunGit,
    ensures
        ({
            let args = add_run(request, events).1->RunGit_0;
            let names_branch = request.target is Some && (events[0] matches EventModel::Branch(
                LookupModel::Found(_),
            ));
            let targets: int = if request.target is Some {
                1
            } else {
                0
            };
            &&& events.last() is Path
            &&& args[0] == vstd::utf8::encode_utf8("worktree"@)
            &&& args[1] == vstd::utf8::encode_utf8("add"@)
            &&& args[args.len() - 1 - targets] == events.last()->Path_0
            &&& request.target is None ==> args.last() == events.last()->Path_0
            &&& request.target matches Some(target) ==> {
                ||| {
                    &&& names_branch
                    &&& args.last() == vstd::utf8::encode_utf8(target)
                }
                ||| {
                    &&& !names_branch
                    &&& events.len() == 4
                    &&& events[1] matches EventModel::Commits(heads) && heads.len() == 1
                        && args.last() == vstd::utf8::encode_utf8(heads[0])
                }
            }
            &&& request.new_branch matches Some(new_branch) ==> {
                &&& args.len() == 5 + targets
                &&& args[2] == vstd::utf8::encode_utf8("-b"@)
                &&& args[3] == vstd::utf8::encode_utf8(new_branch)
            }
            &&& request.new_branch is None && names_branch ==> args.len() == 4
            &&& request.new_branch is None && !names_branch ==> {
                &&& args.len() == 4 + targets
                &&& args[2] == vstd::utf8::encode_utf8("--detach"@)
            }
        }),
{
    assert(events.len() > 0);
    let before = events.drop_last();
    assert(is_run(request, before));
    lemma_answers_so_far(request, before);
    let phase = add_run(request, before).0;
    assert(phase is Path);
    let earlier = before.drop_last();
    if earlier.len() > 0 {
        assert(earlier[0] == events[0]);
    }
    if earlier.len() > 1 {
        assert(earlier[1] == events[1]);
    }
    assert(add_run(request, events).1 == ActionModel::RunGit(
        add_args(
            request.new_branch,
            phase->Path_branch,
            events.last()->Path_0,
            phase->Path_git_target,
        ),
    ));
}

/// Where Git fails, its exit code is passed on and nothing else is done. Where it
/// succeeds, the worktree is looked for at the path that Git was run with.
pub proof fn git_failures_are_passed_on(
    request: RequestModel,
    events: Seq<EventModel>,
    code: int,
)
    requires
        is_run(request, events),
        events.len() > 0,
        events.last() == EventModel::GitExited(code),
    ensures
        code != 0 ==> add_run(request, events) == (PhaseModel::Finished, ActionModel::Exit(code)),
        code == 0 ==> events.len() > 1 && (events[events.len() - 2] matches EventModel::Path(path)
            && add_run(request, events).1 == ActionModel::FindCreated(path)),
{
    let before = events.drop_last();
    assert(is_run(request, before));
    lemma_answers_so_far(request, before);
    if before.len() > 0 {
        assert(before.last() == events[events.len() - 2]);
    }
}

/// The hook is run for the first worktree at the path that Git created it at, as
/// that was canonicalized or else as it is; and it is an error if there is none.
pub proof fn hook_is_run_for_the_created_worktree(
    request: RequestModel,
    events: Seq<EventModel>,
    owner: int,
)
    requires
        is_run(request, events),
        events.len() > 0,
        events.last() is Updated,
    ensures
        events.len() > 2,
        events[events.len() - 3] is Path,
        ({
            let entries = events.last()->entries;
            let path = match events.last()->canonical {
                Some(canonical) => canonical,
                None => events[events.len() - 3]->Path_0,
            };
            &&& 0 <= owner < entries.len() && same_path(entries[owner].path, path) && (forall|
                i: int,
            |
                0 <= i < owner ==> !same_path((#[trigger] entries[i]).path, path)) ==> add_run(
                request,
                events,
            ).1 == ActionModel::RunHook(entries[owner])
            &&& (forall|i: int|
                0 <= i < entries.len() ==> !same_path((#[trigger] entries[i]).path, path))
                ==> add_run(request, events).1 == ActionModel::Fail(
                ErrorModel::CreatedWorktreeNotFound,
            )
        }),
{
    let before = events.drop_last();
    assert(is_run(request, before));
    lemma_answers_so_far(request, before);
    assert(before[before.len() - 2] == events[events.len() - 3]);
    let entries = events.last()->entries;
    let path = best_path(events[events.len() - 3]->Path_0, events.last()->canonical);
    if 0 <= owner < entries.len() && same_path(entries[owner].path, path) && (forall|i: int|
        0 <= i < owner ==> !same_path((#[trigger] entries[i]).path, path)) {
        lemma_first_is_found(entries, is_at_path(path), owner);
    }
    lemma_first_where(entries, is_at_path(path));
    if first_where(entries, is_at_path(path)) is Some {
        let entry = first_where(entries, is_at_path(path))->0;
        let i = choose|i: int| 0 <= i < entries.len() && entries[i] == entry;
        assert(same_path(entries[i].path, path));
    }
}

/// Where the hook fails, its exit code is passed on. Where it succeeds, the user is
/// told the path of the worktree that it was run for.
pub proof fn success_tells_the_path(request: RequestModel, events: Seq<EventModel>, code: int)
    requires
        is_run(request, events),
        events.len() > 0,
        events.last() == EventModel::HookExited(code),
    ensures
        code != 0 ==> add_run(request, events) == (PhaseModel::Finished, ActionModel::Exit(code)),
        code == 0 ==> (add_run(request, events.drop_last()).1 matches ActionModel::RunHook(entry)
            && add_run(request, events) == (
            PhaseModel::Finished,
            ActionModel::Succeed("Created worktree at:"@ + " "@ + shown_text(entry.path)),
        )),
{
    let before = events.drop_last();
    assert(is_run(request, before));
    assert(add_run(request, before).0 is Hook);
    assert(before.len() > 0);
}

/// A message on a worktree is what was done, a space and the path as it is shown.
pub proof fn messages_show_the_path(action: Seq<char>, path: Seq<u8>)
    ensures
        path_message(action, path) == action + " "@ + shown_text(path),
{
}

} // verus!
