use branchless::addition::{AddAction, AddEvent, AddRequest, AddWorktree};
use branchless::error::WorktreeError;
use branchless::hook::{hook_outcome, post_create_hook};
use branchless::listing::{
    get_linked_worktrees, listed_worktree_paths, worktree_list_args, CanonicalPaths,
};
use branchless::naming::{get_worktree_path, PathSearchStep};
use branchless::oid::NonZeroOid;
use branchless::path::FilePath;
use branchless::reference::ReferenceName;
use branchless::removal::{remove_worktree, removal_outcome, RemovalPlan};
use branchless::repo::{ExitCode, ParentRepo, RepoPaths};
use branchless::summary::{describe_worktree_summary, list_worktrees, CommitSummary};
use branchless::target::{BranchLookup, NamedWorktree};
use branchless::worktree::{WorktreeEntry, WorktreeSnapshot};
use cursive_core::theme::{BaseColor, Style};

const MASTER: &str = "f777ecc9b0db5ed372b2615695191a8a17f79f24";
const TEST1: &str = "62fc20d2a290daea0d52bdc2ed2ad4be6491010e";

/// A worktree of the repository below.
struct Worktree {
    path: String,
    head: String,
    branch: Option<String>,
    is_dirty: bool,
}

/// A repository that does what Git would do on the commands that are given.
struct Git {
    repo_path: String,
    worktrees: Vec<Worktree>,
    branches: Vec<String>,
    hook: Option<String>,
    /// The path of the worktree that commands are run in.
    current: String,
    /// The arguments that Git was run with.
    runs: Vec<Vec<String>>,
    /// The variables that the hook was run with.
    hook_variables: Vec<(String, String)>,
}

fn path(text: &str) -> FilePath {
    FilePath::from_text(text)
}

fn make_git() -> Git {
    Git {
        repo_path: "/home/user/repo".to_owned(),
        worktrees: vec![Worktree {
            path: "/home/user/repo".to_owned(),
            head: MASTER.to_owned(),
            branch: Some("master".to_owned()),
            is_dirty: false,
        }],
        branches: vec!["master".to_owned()],
        hook: None,
        current: "/home/user/repo".to_owned(),
        runs: vec![],
        hook_variables: vec![],
    }
}

impl Git {
    fn worktree_root(&self) -> String {
        format!("{}/test-worktrees", self.repo_path)
    }

    fn make_worktree(&mut self, name: &str) -> String {
        let worktree_path = format!("/tmp/{name}");
        self.worktrees.push(Worktree {
            path: worktree_path.clone(),
            head: MASTER.to_owned(),
            branch: None,
            is_dirty: false,
        });
        worktree_path
    }

    fn porcelain(&self) -> String {
        let mut stdout = String::new();
        for worktree in &self.worktrees {
            stdout.push_str(&format!("worktree {}\n", worktree.path));
            stdout.push_str(&format!("HEAD {}\n", worktree.head));
            match &worktree.branch {
                Some(branch) => stdout.push_str(&format!("branch refs/heads/{branch}\n")),
                None => stdout.push_str("detached\n"),
            }
            stdout.push('\n');
        }
        stdout
    }

    fn repo(&self) -> RepoPaths {
        let parent = if self.current == self.repo_path {
            None
        } else {
            Some(ParentRepo {
                working_copy: Some(path(&self.repo_path)),
            })
        };
        RepoPaths {
            git_dir: path("/home/user/repo/.git"),
            working_copy: Some(path(&self.current)),
            parent,
        }
    }

    fn snapshot(&self) -> WorktreeSnapshot {
        let stdout = self.porcelain();
        let canonical = CanonicalPaths {
            working_copy: None,
            main_working_copy: None,
            listed: listed_worktree_paths(&stdout)
                .into_iter()
                .map(Some)
                .collect(),
        };
        get_linked_worktrees(
            &self.repo(),
            &canonical,
            ExitCode { code: 0 },
            &stdout.into_bytes(),
        )
        .unwrap()
    }

    fn find_branch(&self, name: &str) -> BranchLookup {
        if name.contains('(') {
            BranchLookup::InvalidName
        } else if self.branches.iter().any(|branch| branch == name) {
            BranchLookup::Found(ReferenceName::from_local_branch(name))
        } else {
            BranchLookup::NotFound
        }
    }

    fn resolve(&self, target: &str) -> Vec<NonZeroOid> {
        match target {
            "heads(branches())" => vec![NonZeroOid::parse(MASTER).unwrap()],
            "all()" => vec![
                NonZeroOid::parse(MASTER).unwrap(),
                NonZeroOid::parse(TEST1).unwrap(),
            ],
            _ => NonZeroOid::parse(target).into_iter().collect(),
        }
    }

    fn is_taken(&self, path: &FilePath) -> bool {
        self.worktrees
            .iter()
            .any(|worktree| path.to_text().as_deref() == Some(worktree.path.as_str()))
    }

    fn run(&mut self, args: Vec<Vec<u8>>) -> isize {
        let args: Vec<String> = args
            .into_iter()
            .map(|arg| String::from_utf8(arg).unwrap())
            .collect();
        self.runs.push(args.clone());
        let args: Vec<&str> = args.iter().map(|arg| arg.as_str()).collect();
        let (path, head, branch) = match args.as_slice() {
            ["worktree", "add", "-b", branch, path] => {
                self.branches.push(branch.to_string());
                (path, MASTER, Some(branch.to_string()))
            }
            ["worktree", "add", "--detach", path] => (path, MASTER, None),
            ["worktree", "add", "--detach", path, target] => (path, *target, None),
            ["worktree", "add", path, branch] => (path, MASTER, Some(branch.to_string())),
            ["worktree", "remove", rest @ ..] => {
                let force = rest[0] == "--force";
                let path = rest[rest.len() - 1];
                if !force
                    && self
                        .worktrees
                        .iter()
                        .any(|worktree| worktree.path == path && worktree.is_dirty)
                {
                    return 128;
                }
                self.worktrees.retain(|worktree| worktree.path != path);
                return 0;
            }
            _ => return 129,
        };
        self.worktrees.push(Worktree {
            path: path.to_string(),
            head: head.to_owned(),
            branch,
            is_dirty: false,
        });
        0
    }

    /// Run `git wt add`; what it writes to its two streams and its exit code.
    fn wt_add(
        &mut self,
        name: &str,
        target: Option<&str>,
        new_branch: Option<&str>,
    ) -> Result<(String, String, isize), WorktreeError> {
        let (mut machine, mut action) = AddWorktree::start(AddRequest {
            name: name.to_owned(),
            target: target.map(|target| target.to_owned()),
            new_branch: new_branch.map(|branch| branch.to_owned()),
        });
        loop {
            let event = match action {
                AddAction::FindBranch(name) => AddEvent::Branch(self.find_branch(&name)),
                AddAction::ResolveTarget(target) => AddEvent::Commits(self.resolve(&target)),
                AddAction::ListWorktrees => AddEvent::Worktrees(self.snapshot()),
                AddAction::ChoosePath(name) => {
                    let mut search = get_worktree_path(
                        Some(path(&self.worktree_root())),
                        &None,
                        &self.repo(),
                        &name,
                    )?;
                    loop {
                        let exists = self.is_taken(&search.candidate());
                        match search.step(exists) {
                            PathSearchStep::Found(path) => break AddEvent::Path(path),
                            PathSearchStep::Continue(next) => search = next,
                        }
                    }
                }
                AddAction::RunGit(args) => AddEvent::GitExited(ExitCode {
                    code: self.run(args),
                }),
                AddAction::FindCreated(path) => AddEvent::Updated {
                    snapshot: self.snapshot(),
                    canonical: Some(path),
                },
                AddAction::RunHook(entry) => {
                    let command = post_create_hook(
                        self.hook.clone(),
                        Some(path("/bin/sh")),
                        &entry,
                    )?;
                    let mut status = Some(0);
                    if let Some(command) = command {
                        assert_eq!(command.shell, path("/bin/sh"));
                        assert_eq!(command.working_directory, entry.path);
                        assert_eq!(command.args[0], "-c");
                        assert_eq!(Some(&command.args[1]), self.hook.as_ref());
                        self.hook_variables = command
                            .variables
                            .into_iter()
                            .map(|variable| {
                                (variable.name, String::from_utf8(variable.value).unwrap())
                            })
                            .collect();
                        status = if command.args[1] == "exit 3" { Some(3) } else { Some(0) };
                    }
                    AddEvent::HookExited(hook_outcome(status, &entry).exit_code)
                }
                AddAction::Succeed(message) => return Ok((format!("{message}\n"), String::new(), 0)),
                AddAction::Refuse {
                    exit_code,
                    messages,
                } => return Ok((String::new(), messages.join("\n"), exit_code.code)),
                AddAction::Exit(exit_code) => {
                    return Ok((String::new(), String::new(), exit_code.code))
                }
                AddAction::Fail(error) => return Err(error),
            };
            (machine, action) = machine.step(event);
        }
    }

    /// Run `git wt rm`; what it writes to its two streams and its exit code.
    fn wt_rm(
        &mut self,
        target: Option<&str>,
        force: bool,
    ) -> Result<(String, String, isize), WorktreeError> {
        let target = target.map(|name| NamedWorktree {
            name: name.to_owned(),
            canonical: None,
            branch: self.find_branch(name),
        });
        match remove_worktree(&self.snapshot(), &target, force, &self.repo())? {
            RemovalPlan::Refuse {
                exit_code,
                messages,
            } => Ok((String::new(), messages.join("\n"), exit_code.code)),
            RemovalPlan::Run {
                working_directory,
                args,
                success_message,
            } => {
                assert_eq!(working_directory, path(&self.repo_path));
                let code = self.run(args);
                match removal_outcome(ExitCode { code }, success_message) {
                    Ok(message) => Ok((message, String::new(), 0)),
                    Err(exit_code) => Ok((String::new(), String::new(), exit_code.code)),
                }
            }
        }
    }

    fn commit(&self, entry: &WorktreeEntry) -> Option<CommitSummary> {
        let oid = entry.head_oid.as_ref()?;
        let file = match oid.as_str() {
            MASTER => "initial.txt",
            TEST1 => "test1.txt",
            _ => return None,
        };
        Some(CommitSummary {
            short_oid: oid.as_str()[..7].to_owned(),
            age: "3d".to_owned(),
            summary: format!("create {file}"),
        })
    }

    /// Run `git wt list`.
    fn wt_list(&self) -> String {
        let snapshot = self.snapshot();
        let commits = snapshot
            .entries
            .iter()
            .map(|entry| self.commit(entry))
            .collect();
        list_worktrees(&snapshot, &commits)
            .iter()
            .map(|line| format!("{}\n", line.source()))
            .collect()
    }

    /// Each worktree as it is marked in a log: by its icon and its name, behind
    /// the commit that it has checked out.
    fn smartlog(&self) -> String {
        let mut stdout = String::new();
        for entry in &self.snapshot().entries {
            let summary = describe_worktree_summary(entry, &self.commit(entry));
            let label: String = summary.spans().take(3).map(|span| span.content).collect();
            let oid = entry.head_oid.as_ref().unwrap();
            stdout.push_str(&format!("{} ({label})\n", &oid.as_str()[..7]));
        }
        stdout
    }
}

#[test]
fn test_smartlog_shows_detached_linked_worktree() {
    let mut git = make_git();
    git.make_worktree("side");

    let stdout = git.smartlog();
    assert!(stdout.contains("⎇ side"), "stdout was: {stdout}");
}

#[test]
fn test_smartlog_shows_current_and_home_worktree_annotations() {
    let mut git = make_git();
    let repo_name = std::path::Path::new(&git.repo_path)
        .file_name()
        .and_then(|name| name.to_str())
        .unwrap()
        .to_owned();
    git.current = git.make_worktree("topic-wt");

    let stdout = git.smartlog();
    assert!(
        stdout.contains(&format!("ᐅ topic-wt")),
        "stdout should show the current worktree annotation: {stdout}"
    );
    assert!(
        stdout.contains(&format!("⎇ {repo_name}")),
        "stdout should show the home worktree annotation: {stdout}"
    );
}

#[test]
fn test_worktree_add_marks_detached_worktree_in_smartlog() {
    let mut git = make_git();
    let test1_oid = TEST1;

    git.wt_add("side", Some(&test1_oid.to_string()), None).unwrap();

    let stdout = git.smartlog();
    assert!(stdout.contains("(⎇ side)"), "smartlog output was: {stdout}");
    assert!(stdout.contains(&test1_oid.to_string()[..7]));
}

#[test]
fn test_worktree_add_resolves_revset_target_before_calling_git() {
    let mut git = make_git();

    let master_oid = MASTER;
    git.wt_add("side", Some("heads(branches())"), None).unwrap();

    let stdout = git.smartlog();
    assert!(stdout.contains("side"), "smartlog output was: {stdout}");
    assert!(stdout.contains(&master_oid.to_string()[..7]));
    assert_eq!(git.runs.len(), 1);
    assert_eq!(
        git.runs[0],
        vec![
            "worktree",
            "add",
            "--detach",
            "/home/user/repo/test-worktrees/repo/side",
            MASTER
        ]
    );
}

#[test]
fn test_wt_add_sanitizes_worktree_name() {
    let mut git = make_git();
    git.branches.push("topic".to_owned());

    let (stdout, _stderr, _code) = git.wt_add("feature/topic", Some("topic"), None).unwrap();
    assert!(stdout.contains("Created worktree at:"));
    assert!(stdout.contains("feature-topic"));
    assert!(!stdout.contains("\ncd '"), "stdout was: {stdout}");

    assert_eq!(worktree_list_args(), vec!["worktree", "list", "--porcelain"]);
    let stdout = git.porcelain();
    assert!(stdout.contains("branch refs/heads/topic"));
    assert!(stdout.contains("feature-topic"));
}

#[test]
fn test_wt_add_rejects_branch_active_in_another_worktree() {
    let mut git = make_git();
    git.branches.push("topic".to_owned());

    git.wt_add("topic-wt", Some("topic"), None).unwrap();
    let (stdout, stderr, code) = git.wt_add("topic-again", Some("topic"), None).unwrap();

    assert_eq!(code, 1);
    assert_eq!(stdout, "");
    assert!(stderr.contains("Branch 'topic' is already active in another worktree."));
    assert!(stderr.contains("Use `git wt list` to find that worktree."));
    assert_eq!(git.runs.len(), 1);
}

#[test]
fn test_wt_list_shows_worktrees() {
    let mut git = make_git();
    let test1_oid = TEST1;
    git.wt_add("side", Some(&test1_oid.to_string()), None).unwrap();

    let stdout = git.wt_list();
    assert!(
        stdout.contains(&test1_oid.to_string()[..7]),
        "stdout was: {stdout}"
    );
    assert!(stdout.contains("test-worktrees"), "stdout was: {stdout}");
    assert!(stdout.contains("⎇ side"), "stdout was: {stdout}");
    assert!(stdout.contains("create test1.txt"), "stdout was: {stdout}");
    assert_eq!(
        stdout,
        "ᐅ repo master f777ecc 3d create initial.txt\n  /home/user/repo\n\n\
         ⎇ side 62fc20d 3d create test1.txt\n  /home/user/repo/test-worktrees/repo/side\n"
    );
}

#[test]
fn test_wt_rm_resolves_worktree_path() {
    let mut git = make_git();
    git.wt_add("manual-reload", Some(TEST1), None).unwrap();

    let repo_name = std::path::Path::new(&git.repo_path)
        .file_name()
        .and_then(|name| name.to_str())
        .unwrap();
    let worktree_path = std::path::Path::new(&git.worktree_root())
        .join(repo_name)
        .join("manual-reload");
    let worktree_path = worktree_path.to_string_lossy().to_string();
    let (stdout, _stderr, _code) = git.wt_rm(Some(&worktree_path), false).unwrap();
    assert!(stdout.contains("Removed worktree"), "stdout was: {stdout}");
    assert_eq!(git.worktrees.len(), 1);
}

#[test]
fn test_wt_rm_refuses_current_worktree() {
    let mut git = make_git();
    git.current = git.make_worktree("topic-wt");

    let (stdout, stderr, code) = git.wt_rm(None, false).unwrap();

    assert_eq!(code, 1);
    assert_eq!(stdout, "");
    assert!(stderr.contains("Refusing to remove the current worktree from inside it."));
    assert!(stderr.contains("Run `git wt rm topic-wt` from another worktree instead."));
    assert!(git.is_taken(&path("/tmp/topic-wt")));
}

#[test]
fn force_removes_a_dirty_worktree() {
    let mut git = make_git();
    git.branches.push("topic".to_owned());
    git.wt_add("topic-wt", Some("topic"), None).unwrap();
    git.worktrees[1].is_dirty = true;

    let (stdout, _stderr, code) = git.wt_rm(Some("topic-wt"), false).unwrap();
    assert_eq!(code, 128);
    assert_eq!(stdout, "");
    assert_eq!(git.worktrees.len(), 2);

    let (stdout, _stderr, code) = git.wt_rm(Some("topic-wt"), true).unwrap();
    assert_eq!(code, 0);
    assert_eq!(
        stdout,
        "Removed worktree /home/user/repo/test-worktrees/repo/topic-wt"
    );
    assert_eq!(git.worktrees.len(), 1);
    assert_eq!(git.runs[2][2], "--force");
}

#[test]
fn the_main_worktree_is_not_removed_implicitly() {
    let mut git = make_git();
    let (_, stderr, code) = git.wt_rm(None, true).unwrap();
    assert_eq!(code, 1);
    assert_eq!(stderr, "Refusing to remove the main worktree implicitly.");
    // Named from inside, it is refused as the current one.
    let (_, stderr, code) = git.wt_rm(Some("repo"), true).unwrap();
    assert_eq!(code, 1);
    assert!(stderr.starts_with("Refusing to remove the current worktree"));
    assert!(git.runs.is_empty());
}

#[test]
fn worktrees_to_remove_are_found_by_name_path_or_branch() {
    let mut git = make_git();
    git.branches.push("topic".to_owned());
    git.wt_add("first", Some("topic"), None).unwrap();
    git.wt_add("second", None, Some("fresh")).unwrap();
    assert_eq!(git.wt_rm(Some("topic"), false).unwrap().2, 0);
    assert_eq!(git.wt_rm(Some("fresh"), false).unwrap().2, 0);
    assert_eq!(git.worktrees.len(), 1);
    assert_eq!(
        git.wt_rm(Some("topic"), false).unwrap_err(),
        WorktreeError::UnresolvedWorktree("topic".to_owned())
    );
    git.wt_add("third", None, None).unwrap();
    let spelled = "/home/user/repo//test-worktrees/./repo/third/";
    assert_eq!(git.wt_rm(Some(spelled), false).unwrap().2, 0);

    git.current = "/elsewhere".to_owned();
    assert_eq!(
        git.wt_rm(None, false).unwrap_err(),
        WorktreeError::NoCurrentWorktree
    );
    let failed = Some(NamedWorktree {
        name: "gone".to_owned(),
        canonical: None,
        branch: BranchLookup::Failed("corrupt".to_owned()),
    });
    let error = remove_worktree(&git.snapshot(), &failed, false, &git.repo()).unwrap_err();
    assert_eq!(error.message(), "corrupt");
}

#[test]
fn a_removal_needs_a_working_copy_to_run_in() {
    let git = make_git();
    let mut snapshot = git.snapshot();
    snapshot.entries[0].is_current = false;
    let bare = RepoPaths {
        git_dir: path("/srv/repo.git"),
        working_copy: None,
        parent: None,
    };
    let target = Some(NamedWorktree {
        name: "repo".to_owned(),
        canonical: None,
        branch: BranchLookup::NotFound,
    });
    let error = remove_worktree(&snapshot, &target, false, &bare).unwrap_err();
    assert_eq!(error, WorktreeError::NoWorkingCopy);
    assert_eq!(bare.working_directory(), path("/srv/repo.git"));
}

#[test]
fn a_new_branch_is_created_unless_it_is_active() {
    let mut git = make_git();
    git.wt_add("one", None, Some("fresh")).unwrap();
    assert_eq!(
        git.runs[0],
        vec![
            "worktree",
            "add",
            "-b",
            "fresh",
            "/home/user/repo/test-worktrees/repo/one"
        ]
    );
    let (_, stderr, code) = git.wt_add("two", None, Some("fresh")).unwrap();
    assert_eq!(code, 1);
    assert!(stderr.contains("Branch 'fresh' is already active in another worktree."));
}

#[test]
fn taken_names_are_numbered() {
    let mut git = make_git();
    for expected in ["side", "side-2", "side-3"] {
        let (stdout, _, code) = git.wt_add("side", None, None).unwrap();
        assert_eq!(code, 0);
        assert_eq!(
            stdout,
            format!("Created worktree at: /home/user/repo/test-worktrees/repo/{expected}\n")
        );
    }
}

#[test]
fn targets_stand_for_one_commit() {
    let mut git = make_git();
    let error = git.wt_add("side", Some("nothing"), None).unwrap_err();
    assert_eq!(error.message(), "Target 'nothing' did not resolve to any commits");
    let error = git.wt_add("side", Some("all()"), None).unwrap_err();
    assert_eq!(error.message(), "Target 'all()' resolved to multiple heads");
    assert!(git.runs.is_empty());
}

#[test]
fn a_failed_git_command_passes_its_exit_code_on() {
    let (machine, action) = AddWorktree::start(AddRequest {
        name: "side".to_owned(),
        target: None,
        new_branch: None,
    });
    assert!(matches!(action, AddAction::ListWorktrees));
    let (machine, action) = machine.step(AddEvent::Worktrees(make_git().snapshot()));
    assert!(matches!(action, AddAction::ChoosePath(_)));
    let (machine, action) = machine.step(AddEvent::Path(path("/tmp/side")));
    assert!(matches!(action, AddAction::RunGit(_)));
    let (_, action) = machine.step(AddEvent::GitExited(ExitCode { code: 128 }));
    assert!(matches!(action, AddAction::Exit(ExitCode { code: 128 })));
}

#[test]
fn a_created_worktree_must_be_listed() {
    let git = make_git();
    let (machine, _) = AddWorktree::start(AddRequest {
        name: "side".to_owned(),
        target: None,
        new_branch: None,
    });
    let (machine, _) = machine.step(AddEvent::Worktrees(git.snapshot()));
    let (machine, _) = machine.step(AddEvent::Path(path("/tmp/side")));
    let (machine, action) = machine.step(AddEvent::GitExited(ExitCode { code: 0 }));
    assert!(matches!(action, AddAction::FindCreated(_)));
    let (_, action) = machine.step(AddEvent::Updated {
        snapshot: git.snapshot(),
        canonical: None,
    });
    match action {
        AddAction::Fail(error) => assert_eq!(
            error.message(),
            "Created worktree was not discoverable afterwards"
        ),
        other => panic!("{other:?}"),
    }
}

#[test]
fn the_hook_is_told_of_the_new_worktree() {
    let mut git = make_git();
    git.hook = Some("printf '%s' \"$BRANCHLESS_WORKTREE_NAME\"".to_owned());
    git.branches.push("topic".to_owned());
    git.wt_add("topic-wt", Some("topic"), None).unwrap();
    let expected = [
        (
            "BRANCHLESS_WORKTREE_PATH",
            "/home/user/repo/test-worktrees/repo/topic-wt",
        ),
        ("BRANCHLESS_WORKTREE_NAME", "topic-wt"),
        ("BRANCHLESS_WORKTREE_BRANCH", "topic"),
        ("BRANCHLESS_WORKTREE_HEAD", MASTER),
    ];
    let expected: Vec<(String, String)> = expected
        .iter()
        .map(|(name, value)| (name.to_string(), value.to_string()))
        .collect();
    assert_eq!(git.hook_variables, expected);
}

#[test]
fn a_failed_hook_is_reported() {
    let mut git = make_git();
    git.hook = Some("exit 3".to_owned());
    let (stdout, _, code) = git.wt_add("topic-wt", None, None).unwrap();
    assert_eq!(code, 3);
    assert_eq!(stdout, "");

    let entry = git.snapshot().entries.pop().unwrap();
    let outcome = hook_outcome(None, &entry);
    assert_eq!(outcome.exit_code, ExitCode { code: 1 });
    assert_eq!(
        outcome.message.unwrap(),
        "Worktree post-create hook failed for 'topic-wt'."
    );
    assert_eq!(hook_outcome(Some(0), &entry).message, None);
    let error = post_create_hook(git.hook.clone(), None, &entry).unwrap_err();
    assert_eq!(error.message(), "could not get sh");
    assert!(post_create_hook(None, None, &entry).unwrap().is_none());
}

#[test]
fn summaries_are_shown_in_color() {
    let mut entry = make_git().snapshot().entries.remove(0);
    let spans = |entry: &WorktreeEntry, commit: Option<CommitSummary>| -> Vec<(String, Style)> {
        describe_worktree_summary(entry, &commit)
            .spans()
            .map(|span| (span.content.to_owned(), *span.attr))
            .collect()
    };
    let plain = |text: &str| (text.to_owned(), Style::none());
    let commit = CommitSummary {
        short_oid: "f777ecc".to_owned(),
        age: "3d".to_owned(),
        summary: "create initial.txt".to_owned(),
    };
    let head = vec![
        ("ᐅ".to_owned(), BaseColor::Blue.light().into()),
        plain(" "),
        ("repo".to_owned(), BaseColor::Blue.light().into()),
        plain(" "),
        ("master".to_owned(), BaseColor::Green.light().into()),
    ];
    let mut expected = head.clone();
    expected.extend([
        plain(" "),
        ("f777ecc".to_owned(), BaseColor::Yellow.dark().into()),
        plain(" "),
        ("3d".to_owned(), BaseColor::Green.dark().into()),
        plain(" "),
        plain("create initial.txt"),
    ]);
    assert_eq!(spans(&entry, Some(commit)), expected);

    let unavailable = (
        "<unborn or unavailable>".to_owned(),
        BaseColor::Yellow.light().into(),
    );
    let mut expected = head.clone();
    expected.extend([
        plain(" "),
        ("f777ecc9".to_owned(), BaseColor::Yellow.dark().into()),
        plain(" "),
        unavailable.clone(),
    ]);
    assert_eq!(spans(&entry, None), expected);

    entry.head_oid = None;
    let mut expected = head;
    expected.extend([plain(" "), unavailable]);
    assert_eq!(spans(&entry, None), expected);

    let snapshot = WorktreeSnapshot {
        entries: vec![entry],
    };
    let lines = list_worktrees(&snapshot, &vec![]);
    assert_eq!(lines.len(), 2);
    let path_span = lines[1].spans().nth(1).unwrap();
    assert_eq!(path_span.content, "/home/user/repo");
    assert_eq!(*path_span.attr, Style::from(BaseColor::Black.light()));
}
