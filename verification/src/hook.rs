//! The command that is run after a worktree was created.

use vstd::prelude::*;

use crate::error::{enclose, ErrorModel, WorktreeError};
use crate::path::{opt_path, FilePath};
use crate::reference::branch_short_name;
use crate::repo::ExitCode;
use crate::text::{opt_text, texts};
use crate::worktree::{display_name, EntryModel, WorktreeEntry};

verus! {

/// An environment variable and its value.
#[derive(Debug)]
pub struct Variable {
    pub name: String,
    pub value: Vec<u8>,
}

/// An environment variable, by what it holds.
pub struct VariableModel {
    pub name: Seq<char>,
    pub value: Seq<u8>,
}

impl View for Variable {
    type V = VariableModel;

    open spec fn view(&self) -> VariableModel {
        VariableModel { name: self.name@, value: self.value@ }
    }
}

/// The models of variables, in turn.
pub open spec fn variable_models(variables: Seq<Variable>) -> Seq<VariableModel> {
    variables.map_values(|variable: Variable| variable@)
}

/// A command to run after a worktree was created.
#[derive(Debug)]
pub struct HookCommand {
    /// The shell to run.
    pub shell: FilePath,
    /// The directory to run it in.
    pub working_directory: FilePath,
    /// The arguments of the shell.
    pub args: Vec<String>,
    /// The variables to set, on top of the environment that Git is run in.
    pub variables: Vec<Variable>,
}

/// The variables that tell a hook of a new worktree.
pub open spec fn hook_variables(entry: EntryModel) -> Seq<VariableModel> {
    seq![
        VariableModel { name: "BRANCHLESS_WORKTREE_PATH"@, value: entry.path },
        VariableModel {
            name: "BRANCHLESS_WORKTREE_NAME"@,
            value: vstd::utf8::encode_utf8(display_name(entry.path)),
        },
    ] + match entry.branch_name {
        Some(branch_name) => seq![
            VariableModel {
                name: "BRANCHLESS_WORKTREE_BRANCH"@,
                value: vstd::utf8::encode_utf8(branch_short_name(branch_name)),
            },
        ],
        None => seq![],
    } + match entry.head_oid {
        Some(head_oid) => seq![
            VariableModel {
                name: "BRANCHLESS_WORKTREE_HEAD"@,
                value: vstd::utf8::encode_utf8(head_oid),
            },
        ],
        None => seq![],
    }
}

fn push_variable(variables: &mut Vec<Variable>, name: &str, value: Vec<u8>)
    ensures
        variable_models(final(variables)@) == variable_models(old(variables)@).push(
            (VariableModel { name: name@, value: value@ }),
        ),
{
    variables.push(Variable { name: name.to_owned(), value });
    assert(variable_models(variables@) =~= variable_models(old(variables)@).push(
        (VariableModel { name: name@, value: value@ }),
    ));
}

/// The command to run for a new worktree, if a hook is configured.
pub fn post_create_hook(
    hook_command: Option<String>,
    shell: Option<FilePath>,
    entry: &WorktreeEntry,
) -> (result: Result<Option<HookCommand>, WorktreeError>)
    ensures
        match result {
            Ok(Some(command)) => {
                &&& hook_command matches Some(hook)
                &&& opt_path(shell) == Some(command.shell@)
                &&& command.working_directory@ == entry@.path
                &&& texts(command.args@) == seq!["-c"@, hook@]
                &&& variable_models(command.variables@) == hook_variables(entry@)
            },
            Ok(None) => hook_command is None,
            Err(error) => hook_command is Some && shell is None && error@ == ErrorModel::NoShell,
        },
{
    let hook = match hook_command {
        Some(hook) => hook,
        None => {
            return Ok(None);
        },
    };
    let shell = match shell {
        Some(shell) => shell,
        None => {
            return Err(WorktreeError::NoShell);
        },
    };
    let ghost script = hook@;
    let mut args: Vec<String> = Vec::new();
    args.push("-c".to_owned());
    args.push(hook);
    assert(texts(args@) =~= seq!["-c"@, script]);
    let mut variables: Vec<Variable> = Vec::new();
    push_variable(&mut variables, "BRANCHLESS_WORKTREE_PATH", entry.path.clone().bytes);
    push_variable(
        &mut variables,
        "BRANCHLESS_WORKTREE_NAME",
        entry.display_name().as_str().as_bytes_vec(),
    );
    if let Some(branch_name) = &entry.branch_name {
        push_variable(
            &mut variables,
            "BRANCHLESS_WORKTREE_BRANCH",
            branch_name.short_name().as_str().as_bytes_vec(),
        );
    }
    if let Some(head_oid) = &entry.head_oid {
        push_variable(
            &mut variables,
            "BRANCHLESS_WORKTREE_HEAD",
            head_oid.as_str().as_bytes_vec(),
        );
    }
    assert(variable_models(variables@) =~= hook_variables(entry@));
    Ok(Some(HookCommand { shell, working_directory: entry.path.clone(), args, variables }))
}

/// The exit code of a hook; a hook that was ended by a signal has none of its
/// own and counts as failed.
pub open spec fn hook_exit_code(status: Option<i32>) -> int {
    match status {
        Some(code) => code as int,
        None => 1,
    }
}

/// What the user is told of a hook that failed for a worktree at `path`.
pub open spec fn hook_failure(path: Seq<u8>) -> Seq<char> {
    "Worktree post-create hook failed for '"@ + display_name(path) + "'."@
}

/// What came of a hook.
#[derive(Debug)]
pub struct HookOutcome {
    /// The exit code to go on with.
    pub exit_code: ExitCode,
    /// What to tell the user, if anything.
    pub message: Option<String>,
}

/// What comes of a hook that ended with the given status code.
pub fn hook_outcome(status: Option<i32>, entry: &WorktreeEntry) -> (outcome: HookOutcome)
    ensures
        outcome.exit_code.code == hook_exit_code(status),
        opt_text(outcome.message) == (if hook_exit_code(status) == 0 {
            None
        } else {
            Some(hook_failure(entry@.path))
        }),
{
    let code: isize = match status {
        Some(code) => code as isize,
        None => 1,
    };
    let message = if code == 0 {
        None
    } else {
        Some(
            enclose(
                "Worktree post-create hook failed for '",
                entry.display_name().as_str(),
                "'.",
            ),
        )
    };
    HookOutcome { exit_code: ExitCode { code }, message }
}

/// A hook is told the path and the name of the worktree, then its branch, if it is
/// on one, by its short name, and then its commit, if it has one; nothing else.
pub proof fn hooks_are_told_of_the_worktree(entry: EntryModel)
    ensures
        ({
            let variables = hook_variables(entry);
            let branches: int = if entry.branch_name is Some {
                1
            } else {
                0
            };
            let heads: int = if entry.head_oid is Some {
                1
            } else {
                0
            };
            &&& variables.len() == 2 + branches + heads
            &&& variables[0].name == "BRANCHLESS_WORKTREE_PATH"@
            &&& variables[0].value == entry.path
            &&& variables[1].name == "BRANCHLESS_WORKTREE_NAME"@
            &&& variables[1].value == vstd::utf8::encode_utf8(display_name(entry.path))
            &&& entry.branch_name matches Some(branch_name) ==> {
                &&& variables[2].name == "BRANCHLESS_WORKTREE_BRANCH"@
                &&& variables[2].value == vstd::utf8::encode_utf8(branch_short_name(branch_name))
            }
            &&& entry.head_oid matches Some(head_oid) ==> {
                &&& variables[variables.len() - 1].name == "BRANCHLESS_WORKTREE_HEAD"@
                &&& variables[variables.len() - 1].value == vstd::utf8::encode_utf8(head_oid)
            }
        }),
{
}

/// A hook exits with its own code, or with one where it has none, and the user is
/// told the name of the worktree that it failed for.
pub proof fn hooks_exit_with_their_code(code: i32, path: Seq<u8>)
    ensures
        hook_exit_code(Some(code)) == code,
        hook_exit_code(None) == 1,
        hook_failure(path) == "Worktree post-create hook failed for '"@ + display_name(path)
            + "'."@,
{
}

} // verus!
