//! Removing a worktree.

use vstd::prelude::*;

use crate::error::{enclose, ErrorModel, WorktreeError};
use crate::path::{byte_strings, FilePath};
use crate::repo::{ExitCode, RepoPaths};
use crate::target::{resolve_rm_target, rm_entry, NamedWorktree};
use crate::text::{shown_text, texts};
use crate::worktree::{
    display_name, is_current, lemma_first_where, EntryModel, WorktreeSnapshot,
};

verus! {

/// What is done to remove a worktree.
#[derive(Debug)]
pub enum RemovalPlan {
    /// It is not removed.
    Refuse {
        /// The code to exit with.
        exit_code: ExitCode,
        /// What to tell the user, line by line.
        messages: Vec<String>,
    },
    /// Git is run.
    Run {
        /// The directory to run Git in.
        working_directory: FilePath,
        /// The arguments to run Git with.
        args: Vec<Vec<u8>>,
        /// What to tell the user if Git succeeds.
        success_message: String,
    },
}

/// A `RemovalPlan` with what its parts hold.
pub enum RemovalModel {
    Refuse { exit_code: int, messages: Seq<Seq<char>> },
    Run { working_directory: Seq<u8>, args: Seq<Seq<u8>>, success_message: Seq<char> },
}

impl View for RemovalPlan {
    type V = RemovalModel;

    open spec fn view(&self) -> RemovalModel {
        match self {
            RemovalPlan::Refuse { exit_code, messages } => RemovalModel::Refuse {
                exit_code: exit_code.code as int,
                messages: texts(messages@),
            },
            RemovalPlan::Run { working_directory, args, success_message } => RemovalModel::Run {
                working_directory: working_directory@,
                args: byte_strings(args@),
                success_message: success_message@,
            },
        }
    }
}

/// The arguments that remove the worktree at `path`.
pub open spec fn remove_args(path: Seq<u8>, force: bool) -> Seq<Seq<u8>> {
    seq![vstd::utf8::encode_utf8("worktree"@), vstd::utf8::encode_utf8("remove"@)] + if force {
        seq![vstd::utf8::encode_utf8("--force"@)]
    } else {
        seq![]
    } + seq![path]
}

/// What is done to remove the worktree `entry`, which the user named or not. The
/// main worktree is only removed where it is named, and the current one never.
/// Git is run in the main working copy.
pub open spec fn removal_of(
    entry: EntryModel,
    is_named: bool,
    force: bool,
    main_working_copy: Option<Seq<u8>>,
) -> Result<RemovalModel, ErrorModel> {
    if entry.is_main && !is_named {
        Ok(
            RemovalModel::Refuse {
                exit_code: 1,
                messages: seq!["Refusing to remove the main worktree implicitly."@],
            },
        )
    } else if entry.is_current {
        Ok(
            RemovalModel::Refuse {
                exit_code: 1,
                messages: seq![
                    "Refusing to remove the current worktree from inside it."@,
                    "Run `git wt rm "@ + display_name(entry.path)
                        + "` from another worktree instead."@,
                ],
            },
        )
    } else {
        match main_working_copy {
            None => Err(ErrorModel::NoWorkingCopy),
            Some(working_directory) => Ok(
                RemovalModel::Run {
                    working_directory,
                    args: remove_args(entry.path, force),
                    success_message: "Removed worktree "@ + shown_text(entry.path),
                },
            ),
        }
    }
}

/// What is done to remove the worktree that the user means.
pub open spec fn planned_removal(
    entries: Seq<EntryModel>,
    target: Option<NamedWorktree>,
    force: bool,
    main_working_copy: Option<Seq<u8>>,
) -> Result<RemovalModel, ErrorModel> {
    match rm_entry(entries, target) {
        Ok(entry) => removal_of(entry, target is Some, force, main_working_copy),
        Err(error) => Err(error),
    }
}

/// Decide how to remove the worktree that the user means.
pub fn remove_worktree(
    snapshot: &WorktreeSnapshot,
    target: &Option<NamedWorktree>,
    force: bool,
    repo: &RepoPaths,
) -> (result: Result<RemovalPlan, WorktreeError>)
    ensures
        match result {
            Ok(plan) => planned_removal(snapshot@, *target, force, repo.main_bytes()) == Ok::<
                RemovalModel,
                ErrorModel,
            >(plan@),
            Err(error) => planned_removal(snapshot@, *target, force, repo.main_bytes()) == Err::<
                RemovalModel,
                ErrorModel,
            >(error@),
        },
{
    let entry = match resolve_rm_target(snapshot, target) {
        Ok(entry) => entry,
        Err(error) => {
            return Err(error);
        },
    };
    let mut messages: Vec<String> = Vec::new();
    if entry.is_main && target.is_none() {
        messages.push("Refusing to remove the main worktree implicitly.".to_owned());
        assert(texts(messages@) =~= seq!["Refusing to remove the main worktree implicitly."@]);
        return Ok(RemovalPlan::Refuse { exit_code: ExitCode { code: 1 }, messages });
    }
    if entry.is_current {
        messages.push("Refusing to remove the current worktree from inside it.".to_owned());
        messages.push(
            enclose(
                "Run `git wt rm ",
                entry.display_name().as_str(),
                "` from another worktree instead.",
            ),
        );
        assert(texts(messages@) =~= seq![
            "Refusing to remove the current worktree from inside it."@,
            "Run `git wt rm "@ + display_name(entry@.path) + "` from another worktree instead."@,
        ]);
        return Ok(RemovalPlan::Refuse { exit_code: ExitCode { code: 1 }, messages });
    }
    let working_directory = match repo.main_working_copy() {
        Some(working_directory) => working_directory,
        None => {
            return Err(WorktreeError::NoWorkingCopy);
        },
    };
    let mut args: Vec<Vec<u8>> = Vec::new();
    args.push("worktree".as_bytes_vec());
    args.push("remove".as_bytes_vec());
    if force {
        args.push("--force".as_bytes_vec());
    }
    args.push(entry.path.clone().bytes);
    assert(byte_strings(args@) =~= remove_args(entry@.path, force));
    let mut success_message = "Removed worktree ".to_owned();
    success_message.append(entry.path.to_text_lossy().as_str());
    Ok(RemovalPlan::Run { working_directory, args, success_message })
}

/// What comes of a removal, given how Git exited: the message to tell the user,
/// or the code to exit with.
pub fn removal_outcome(exit_code: ExitCode, success_message: String) -> (outcome: Result<
    String,
    ExitCode,
>)
    ensures
        outcome == (if exit_code.code == 0 {
            Ok(success_message)
        } else {
            Err(exit_code)
        }),
{
    if exit_code.is_success() {
        Ok(success_message)
    } else {
        Err(exit_code)
    }
}

/// However the worktrees are and whatever the user asks for, Git is not run on
/// the current worktree, nor on the main one unless the user named it.
pub proof fn removal_spares_current_and_main(
    entries: Seq<EntryModel>,
    target: Option<NamedWorktree>,
    force: bool,
    main_working_copy: Option<Seq<u8>>,
)
    ensures
        planned_removal(entries, target, force, main_working_copy) matches Ok(
            RemovalModel::Run { args, .. },
        ) ==> {
            &&& rm_entry(entries, target) matches Ok(entry)
            &&& args.last() == entry.path
            &&& !entry.is_current
            &&& entry.is_main ==> target is Some
        },
{
}

/// Without a name, nothing is ever removed: only the current worktree could be
/// meant, and that one is refused.
pub proof fn nothing_is_removed_implicitly(
    entries: Seq<EntryModel>,
    force: bool,
    main_working_copy: Option<Seq<u8>>,
)
    ensures
        planned_removal(entries, None, force, main_working_copy) matches Ok(plan) ==> plan
            is Refuse,
{
    lemma_first_where(entries, is_current());
}

/// Git is told to remove a worktree by its path, with `--force` where that was asked
/// for and not otherwise.
pub proof fn git_is_told_the_path_to_remove(path: Seq<u8>, force: bool)
    ensures
        ({
            let args = remove_args(path, force);
            &&& args[0] == vstd::utf8::encode_utf8("worktree"@)
            &&& args[1] == vstd::utf8::encode_utf8("remove"@)
            &&& args[args.len() - 1] == path
            &&& force ==> args.len() == 4 && args[2] == vstd::utf8::encode_utf8("--force"@)
            &&& !force ==> args.len() == 3
        }),
{
}

/// The worktree that is meant is removed unless it is current, or main and not
/// named: Git is run on its path in the main working copy, and the user is told
/// the path. Without a main working copy to run in, that is what is told.
pub proof fn other_worktrees_are_removed(
    entries: Seq<EntryModel>,
    target: Option<NamedWorktree>,
    force: bool,
    working_copy: Seq<u8>,
    entry: EntryModel,
)
    requires
        rm_entry(entries, target) == Ok::<EntryModel, ErrorModel>(entry),
        !entry.is_current,
        entry.is_main ==> target is Some,
    ensures
        planned_removal(entries, target, force, Some(working_copy)) matches Ok(
            RemovalModel::Run { working_directory, args, success_message },
        ) && {
            &&& working_directory == working_copy
            &&& args[args.len() - 1] == entry.path
            &&& args.contains(vstd::utf8::encode_utf8("--force"@)) || !force
            &&& args.len() == if force {
                4int
            } else {
                3int
            }
            &&& success_message == "Removed worktree "@ + shown_text(entry.path)
        },
        planned_removal(entries, target, force, None) == Err::<RemovalModel, ErrorModel>(
            ErrorModel::NoWorkingCopy,
        ),
{
    let args = remove_args(entry.path, force);
    if force {
        assert(args[2] == vstd::utf8::encode_utf8("--force"@));
    }
}

/// The current worktree is refused, with or without force, and the user is told how
/// to remove it; but where it is the main one and not named, that comes first. A
/// target that means no worktree is an error.
pub proof fn refusals_tell_the_user(
    entries: Seq<EntryModel>,
    target: Option<NamedWorktree>,
    force: bool,
    main_working_copy: Option<Seq<u8>>,
)
    ensures
        match rm_entry(entries, target) {
            Err(error) => planned_removal(entries, target, force, main_working_copy) == Err::<
                RemovalModel,
                ErrorModel,
            >(error),
            Ok(entry) => {
                &&& entry.is_main && target is None ==> planned_removal(
                    entries,
                    target,
                    force,
                    main_working_copy,
                ) == Ok::<RemovalModel, ErrorModel>(
                    RemovalModel::Refuse {
                        exit_code: 1,
                        messages: seq!["Refusing to remove the main worktree implicitly."@],
                    },
                )
                &&& entry.is_current && !(entry.is_main && target is None) ==> planned_removal(
                    entries,
                    target,
                    force,
                    main_working_copy,
                ) == Ok::<RemovalModel, ErrorModel>(
                    RemovalModel::Refuse {
                        exit_code: 1,
                        messages: seq![
                            "Refusing to remove the current worktree from inside it."@,
                            "Run `git wt rm "@ + display_name(entry.path)
                                + "` from another worktree instead."@,
                        ],
                    },
                )
            },
        },
{
}

} // verus!
