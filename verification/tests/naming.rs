use branchless::error::WorktreeError;
use branchless::naming::{
    expand_home, get_worktree_path, get_worktree_root, repo_display_name, sanitize_worktree_name,
    PathSearchStep, WorktreePathSearch,
};
use branchless::path::FilePath;
use branchless::repo::{ParentRepo, RepoPaths};

fn path(text: &str) -> FilePath {
    FilePath::from_text(text)
}

fn repo(working_copy: Option<&str>) -> RepoPaths {
    RepoPaths {
        git_dir: path("/srv/git"),
        working_copy: working_copy.map(path),
        parent: None,
    }
}

fn text(path: &FilePath) -> String {
    path.to_text().unwrap()
}

#[test]
fn names_are_sanitized() {
    for (name, expected) in [
        ("side", "side"),
        ("feature/topic", "feature-topic"),
        ("a  //b", "a-b"),
        ("a - b", "a---b"),
        ("-a/", "a"),
        (".hidden.", "hidden"),
        ("..a_b.c-1--", "a_b.c-1"),
        ("wörk", "w-rk"),
        ("日本x", "x"),
        ("A-Z_09", "A-Z_09"),
    ] {
        let sanitized = sanitize_worktree_name(name).unwrap();
        assert_eq!(sanitized, expected);
        // Once is enough.
        assert_eq!(sanitize_worktree_name(&sanitized).unwrap(), sanitized);
    }
}

#[test]
fn names_without_usable_characters_are_refused() {
    for name in ["", "/", "...", " - ", "日本"] {
        let error = sanitize_worktree_name(name).unwrap_err();
        assert_eq!(error, WorktreeError::UnusableName(name.to_owned()));
        assert_eq!(
            error.message(),
            format!("Worktree name '{name}' is not usable after sanitization")
        );
    }
}

#[test]
fn the_home_directory_is_expanded() {
    let home = Some(path("/home/user"));
    for (path_text, expected) in [
        ("~", "/home/user/"),
        ("~/", "/home/user/"),
        ("~/trees", "/home/user/trees"),
        ("~///trees//x", "/home/user/trees//x"),
        ("~user/trees", "~user/trees"),
        ("/trees/~", "/trees/~"),
        ("trees", "trees"),
        ("", ""),
    ] {
        assert_eq!(text(&expand_home(path(path_text), &home).unwrap()), expected);
    }
    let error = expand_home(path("~/trees"), &None).unwrap_err();
    assert_eq!(error, WorktreeError::HomeNotSet);
    assert_eq!(error.message(), "$HOME is not set");
    assert_eq!(text(&expand_home(path("/trees"), &None).unwrap()), "/trees");

    // What is shown of the path is what is expanded.
    let bytes = FilePath::from_bytes(vec![b'~', b'/', 0xff]);
    assert_eq!(
        text(&expand_home(bytes, &home).unwrap()),
        "/home/user/\u{fffd}"
    );
    let bytes = FilePath::from_bytes(vec![b'/', 0xff]);
    assert_eq!(expand_home(bytes, &home).unwrap().bytes, vec![b'/', 0xff]);
}

#[test]
fn worktrees_are_kept_below_a_root() {
    let home = Some(path("/home/user"));
    assert_eq!(
        text(&get_worktree_root(None, &home).unwrap()),
        "/home/user/.worktrees"
    );
    assert_eq!(
        text(&get_worktree_root(Some(path("~/wt")), &home).unwrap()),
        "/home/user/wt"
    );
    assert_eq!(
        text(&get_worktree_root(Some(path("/wt")), &None).unwrap()),
        "/wt"
    );
    assert_eq!(
        get_worktree_root(None, &None).unwrap_err(),
        WorktreeError::HomeNotSet
    );
    assert_eq!(
        get_worktree_root(Some(path("~")), &None).unwrap_err(),
        WorktreeError::HomeNotSet
    );
}

#[test]
fn repositories_are_called_by_their_main_working_copy() {
    assert_eq!(repo_display_name(&repo(Some("/code/tool/"))).unwrap(), "tool");
    assert_eq!(repo_display_name(&repo(Some("/"))).unwrap(), "repo");
    let mut linked = repo(Some("/tmp/side"));
    linked.parent = Some(ParentRepo {
        working_copy: Some(path("/code/tool")),
    });
    assert_eq!(repo_display_name(&linked).unwrap(), "tool");
    linked.parent = Some(ParentRepo { working_copy: None });
    let error = repo_display_name(&linked).unwrap_err();
    assert_eq!(error, WorktreeError::NoWorkingCopy);
    assert_eq!(
        error.message(),
        "Repository does not have a working copy path"
    );
    let undecodable = RepoPaths {
        git_dir: path("/srv/git"),
        working_copy: Some(FilePath::from_bytes(vec![b'/', 0xff])),
        parent: None,
    };
    assert_eq!(repo_display_name(&undecodable).unwrap(), "repo");
}

fn search(name: &str) -> WorktreePathSearch {
    get_worktree_path(Some(path("/wt")), &None, &repo(Some("/code/tool")), name).unwrap()
}

#[test]
fn the_first_path_that_is_free_is_found() {
    let mut current = search("feature/topic");
    let mut candidates = vec![];
    let found = loop {
        let candidate = text(&current.candidate());
        let exists = candidates.len() < 11;
        candidates.push(candidate);
        match current.step(exists) {
            PathSearchStep::Found(path) => break text(&path),
            PathSearchStep::Continue(next) => current = next,
        }
    };
    assert_eq!(candidates[0], "/wt/tool/feature-topic");
    assert_eq!(candidates[1], "/wt/tool/feature-topic-2");
    assert_eq!(candidates[9], "/wt/tool/feature-topic-10");
    assert_eq!(found, "/wt/tool/feature-topic-12");
    candidates.dedup();
    assert_eq!(candidates.len(), 12);
}

#[test]
fn a_free_path_is_found_at_once() {
    match search("side").step(false) {
        PathSearchStep::Found(path) => assert_eq!(text(&path), "/wt/tool/side"),
        PathSearchStep::Continue(next) => panic!("{next:?}"),
    }
}

#[test]
fn paths_are_refused_in_order() {
    let bare = repo(None);
    let fail = |configured: Option<FilePath>, repo: &RepoPaths, name: &str| {
        get_worktree_path(configured, &None, repo, name).unwrap_err()
    };
    assert_eq!(fail(None, &bare, "/"), WorktreeError::HomeNotSet);
    assert_eq!(
        fail(Some(path("/wt")), &bare, "/"),
        WorktreeError::NoWorkingCopy
    );
    assert_eq!(
        fail(Some(path("/wt")), &repo(Some("/code/tool")), "/"),
        WorktreeError::UnusableName("/".to_owned())
    );
}

#[test]
fn every_error_is_told() {
    for (error, message) in [
        (
            WorktreeError::NoCommits("x".to_owned()),
            "Target 'x' did not resolve to any commits",
        ),
        (
            WorktreeError::MultipleHeads("x".to_owned()),
            "Target 'x' resolved to multiple heads",
        ),
        (WorktreeError::FindingBranch("why".to_owned()), "why"),
        (
            WorktreeError::UnresolvedWorktree("x".to_owned()),
            "Could not resolve worktree target 'x'",
        ),
        (
            WorktreeError::NoCurrentWorktree,
            "Could not determine the current worktree",
        ),
        (
            WorktreeError::CreatedWorktreeNotFound,
            "Created worktree was not discoverable afterwards",
        ),
        (WorktreeError::NoShell, "could not get sh"),
    ] {
        assert_eq!(error.message(), message);
    }
}
