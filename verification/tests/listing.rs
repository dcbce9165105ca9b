use branchless::error::WorktreeError;
use branchless::listing::{
    canonicalize_best_effort, get_linked_worktrees, get_linked_worktrees_for_repo,
    listed_worktree_paths, make_current_worktree_head, parse_worktree_head_info,
    parse_worktree_snapshot, CanonicalPaths, ResolvedReferenceInfo,
};
use branchless::oid::NonZeroOid;
use branchless::path::FilePath;
use branchless::reference::ReferenceName;
use branchless::repo::{ExitCode, ParentRepo, RepoPaths};
use branchless::worktree::{WorktreeEntry, WorktreeSnapshot};

const FIRST: &str = "f777ecc9b0db5ed372b2615695191a8a17f79f24";
const SECOND: &str = "62fc20d2a290daea0d52bdc2ed2ad4be6491010e";
const ZERO: &str = "0000000000000000000000000000000000000000";

fn path(text: &str) -> FilePath {
    FilePath::from_text(text)
}

fn strings(lines: &[&str]) -> Vec<String> {
    lines.iter().map(|line| line.to_string()).collect()
}

fn oid(hex: &str) -> Option<NonZeroOid> {
    Some(NonZeroOid::parse(hex).unwrap())
}

fn branch(name: &str) -> Option<ReferenceName> {
    Some(ReferenceName::from_text(name))
}

fn listing() -> String {
    format!(
        "worktree /home/user/repo\nHEAD {FIRST}\nbranch refs/heads/master\n\n\
         worktree /tmp/side\nHEAD {SECOND}\ndetached\n\n\
         worktree /tmp/topic\nHEAD {FIRST}\nbranch refs/heads/topic\nlocked\n\n"
    )
}

fn snapshot() -> WorktreeSnapshot {
    parse_worktree_snapshot(
        &listing(),
        &vec![],
        &Some(path("/tmp/side/")),
        &Some(path("/home/user/repo")),
    )
    .unwrap()
}

fn names(entries: &[&WorktreeEntry]) -> Vec<String> {
    entries.iter().map(|entry| entry.display_name()).collect()
}

#[test]
fn worktrees_are_read_from_their_listing() {
    assert_eq!(
        snapshot().entries,
        vec![
            WorktreeEntry {
                path: path("/home/user/repo"),
                head_oid: oid(FIRST),
                branch_name: branch("refs/heads/master"),
                is_current: false,
                is_main: true,
            },
            WorktreeEntry {
                path: path("/tmp/side"),
                head_oid: oid(SECOND),
                branch_name: None,
                is_current: true,
                is_main: false,
            },
            WorktreeEntry {
                path: path("/tmp/topic"),
                head_oid: oid(FIRST),
                branch_name: branch("refs/heads/topic"),
                is_current: false,
                is_main: false,
            },
        ]
    );
    assert!(snapshot().entries[1].is_detached());
    assert!(!snapshot().entries[2].is_detached());
}

#[test]
fn line_endings_and_the_last_empty_line_do_not_matter() {
    let expected = snapshot().entries;
    let windows = listing().replace('\n', "\r\n");
    for stdout in [windows.as_str(), listing().trim_end()] {
        let read = parse_worktree_snapshot(
            stdout,
            &vec![],
            &Some(path("/tmp/side")),
            &Some(path("/home/user/repo")),
        )
        .unwrap();
        assert_eq!(read.entries, expected);
    }
}

#[test]
fn lines_outside_of_a_record_are_skipped() {
    let stdout = format!(
        "HEAD stray\n\nbranch stray\nworktree /a\nHEAD {FIRST}\nworktree /b\n\nHEAD stray\n"
    );
    let read = parse_worktree_snapshot(&stdout, &vec![], &None, &None).unwrap();
    assert_eq!(read.entries.len(), 2);
    assert_eq!(read.entries[0].head_oid, oid(FIRST));
    assert_eq!(read.entries[0].branch_name, None);
    assert_eq!(read.entries[1].path, path("/b"));
    assert_eq!(read.entries[1].head_oid, None);
    assert!(!read.entries[0].is_current && !read.entries[0].is_main);
    assert!(parse_worktree_snapshot("", &vec![], &None, &None)
        .unwrap()
        .entries
        .is_empty());
}

#[test]
fn heads_are_read_from_their_lines() {
    let read = |lines: &[&str]| parse_worktree_head_info(&strings(lines)).unwrap();
    let head = format!("HEAD {FIRST}");
    assert_eq!(read(&[]), (None, None));
    assert_eq!(
        read(&[&head, "branch refs/heads/a"]),
        (oid(FIRST), branch("refs/heads/a"))
    );
    // `detached` wins over a branch, wherever it stands.
    assert_eq!(
        read(&["detached", &head, "branch refs/heads/a"]),
        (oid(FIRST), None)
    );
    assert_eq!(read(&["detached "]), (None, None));
    assert_eq!(
        read(&["branch refs/heads/a", "branch refs/heads/b", " detached"]),
        (None, branch("refs/heads/b"))
    );
    // A branch without commits.
    let zero = format!("HEAD {ZERO}");
    assert_eq!(
        read(&[&zero, "branch refs/heads/new"]),
        (None, branch("refs/heads/new"))
    );
    assert_eq!(read(&[&head, &zero]), (None, None));
}

#[test]
fn heads_that_are_no_object_ids_are_refused() {
    for value in ["xyz", "", "0", "000000000000000000000000000000000000000g"] {
        let stdout = format!("worktree /a\nHEAD {FIRST}\n\nworktree /b\nHEAD {value}\n");
        let error = parse_worktree_snapshot(&stdout, &vec![], &None, &None).unwrap_err();
        assert_eq!(error, WorktreeError::ParsingHeadOid);
        assert_eq!(error.message(), "Parsing worktree HEAD OID");
        let later = strings(&[&format!("HEAD {value}"), &format!("HEAD {FIRST}")]);
        assert!(parse_worktree_head_info(&later).is_err());
    }
}

#[test]
fn listed_paths_are_canonicalized_one_by_one() {
    let paths = listed_worktree_paths(&listing());
    assert_eq!(
        paths,
        vec![path("/home/user/repo"), path("/tmp/side"), path("/tmp/topic")]
    );
    let canonical = vec![None, Some(path("/private/tmp/side"))];
    let read = parse_worktree_snapshot(
        &listing(),
        &canonical,
        &Some(path("/private/tmp/side")),
        &None,
    )
    .unwrap();
    assert_eq!(read.entries[0].path, path("/home/user/repo"));
    assert_eq!(read.entries[1].path, path("/private/tmp/side"));
    assert_eq!(read.entries[2].path, path("/tmp/topic"));
    assert!(read.entries[1].is_current);

    assert_eq!(canonicalize_best_effort(path("a"), None), path("a"));
    assert_eq!(canonicalize_best_effort(path("a"), Some(path("/a"))), path("/a"));
}

fn linked_repo() -> RepoPaths {
    RepoPaths {
        git_dir: path("/home/user/repo/.git/worktrees/side"),
        working_copy: Some(path("/tmp/side")),
        parent: Some(ParentRepo {
            working_copy: Some(path("/home/user/repo")),
        }),
    }
}

fn canonical() -> CanonicalPaths {
    CanonicalPaths {
        working_copy: None,
        main_working_copy: None,
        listed: vec![],
    }
}

#[test]
fn worktrees_are_discovered_from_a_linked_worktree() {
    let found = get_linked_worktrees(
        &linked_repo(),
        &canonical(),
        ExitCode { code: 0 },
        &listing().into_bytes(),
    )
    .unwrap();
    assert_eq!(found.entries, snapshot().entries);
    assert_eq!(linked_repo().working_directory(), path("/tmp/side"));

    let canonical = CanonicalPaths {
        working_copy: Some(path("/private/tmp/side")),
        main_working_copy: Some(path("/tmp/topic")),
        listed: vec![],
    };
    let found =
        get_linked_worktrees_for_repo(&linked_repo(), &canonical, true, &listing().into_bytes())
            .unwrap();
    assert!(found.current().is_none());
    assert!(found.entries[2].is_main);
}

#[test]
fn the_main_worktree_is_current_at_home() {
    let repo = RepoPaths {
        git_dir: path("/home/user/repo/.git"),
        working_copy: Some(path("/home/user/repo")),
        parent: None,
    };
    let found =
        get_linked_worktrees_for_repo(&repo, &canonical(), true, &listing().into_bytes()).unwrap();
    for entry in &found.entries {
        assert_eq!(entry.is_current, entry.is_main);
    }
    assert_eq!(found.current(), Some(&found.entries[0]));
}

#[test]
fn a_failed_listing_gives_no_worktrees() {
    let found = get_linked_worktrees(
        &linked_repo(),
        &canonical(),
        ExitCode { code: 128 },
        &listing().into_bytes(),
    )
    .unwrap();
    assert!(found.entries.is_empty());
    let found =
        get_linked_worktrees_for_repo(&linked_repo(), &canonical(), false, &vec![0xff]).unwrap();
    assert!(found.entries.is_empty());
}

#[test]
fn a_listing_must_be_text() {
    let error =
        get_linked_worktrees_for_repo(&linked_repo(), &canonical(), true, &vec![b'w', 0xff])
            .unwrap_err();
    assert_eq!(error, WorktreeError::DecodingWorktreeList);
    assert_eq!(error.message(), "Decoding worktree list");
}

#[test]
fn worktrees_are_looked_up_by_commit() {
    let snapshot = snapshot();
    let first = NonZeroOid::parse(FIRST).unwrap();
    assert_eq!(names(&snapshot.find_by_head_oid(&first)), vec!["repo", "topic"]);
    let other = NonZeroOid::parse("abc").unwrap();
    assert!(snapshot.find_by_head_oid(&other).is_empty());

    let map = snapshot.oid_to_worktrees();
    assert_eq!(names(map.get(FIRST).unwrap()), vec!["repo", "topic"]);
    assert_eq!(names(map.get(SECOND).unwrap()), vec!["side"]);
    assert!(!map.contains_key(ZERO));
    assert_eq!(map.len(), 2);
}

#[test]
fn worktrees_are_looked_up_by_branch() {
    let mut snapshot = snapshot();
    let topic = ReferenceName::from_local_branch("topic");
    assert_eq!(snapshot.find_by_branch(&topic), Some(&snapshot.entries[2]));
    let other = ReferenceName::from_local_branch("other");
    assert_eq!(snapshot.find_by_branch(&other), None);
    let short = ReferenceName::from_text("topic");
    assert_eq!(snapshot.find_by_branch(&short), None);

    // Two worktrees on one branch: the search finds the first, the map the last.
    snapshot.entries[1].branch_name = Some(topic.clone());
    assert_eq!(snapshot.find_by_branch(&topic), Some(&snapshot.entries[1]));
    let map = snapshot.branch_to_worktree();
    assert_eq!(map.len(), 2);
    assert_eq!(map.get("refs/heads/topic").unwrap().path, path("/tmp/topic"));
    assert_eq!(map.get("refs/heads/master").unwrap().path, path("/home/user/repo"));
}

#[test]
fn every_worktree_is_on_an_active_branch_or_commit() {
    let mut snapshot = snapshot();
    let branches = snapshot.active_branch_names();
    assert_eq!(branches.len(), 2);
    assert!(branches.contains("refs/heads/master"));
    assert!(branches.contains("refs/heads/topic"));
    let oids = snapshot.active_detached_head_oids();
    assert_eq!(oids.len(), 1);
    assert!(oids.contains(SECOND));

    snapshot.entries[1].head_oid = None;
    assert_eq!(snapshot.active_detached_head_oids().len(), 0);
}

#[test]
fn the_current_head_is_that_of_the_current_worktree() {
    let mut snapshot = snapshot();
    let head_info = ResolvedReferenceInfo {
        oid: oid(FIRST),
        reference_name: branch("refs/heads/elsewhere"),
    };
    let head = make_current_worktree_head(&snapshot, &head_info).unwrap();
    assert_eq!(head, snapshot.entries[1]);

    snapshot.entries.remove(1);
    let head = make_current_worktree_head(&snapshot.clone(), &head_info).unwrap();
    assert_eq!(
        head,
        WorktreeEntry {
            path: path(""),
            head_oid: oid(FIRST),
            branch_name: branch("refs/heads/elsewhere"),
            is_current: true,
            is_main: false,
        }
    );
    let nowhere = ResolvedReferenceInfo {
        oid: None,
        reference_name: None,
    };
    let head = make_current_worktree_head(&WorktreeSnapshot::default(), &nowhere).unwrap();
    assert!(head.is_current && head.is_detached() && head.head_oid.is_none());
}

#[test]
fn worktrees_are_called_by_the_last_name_in_their_path() {
    let mut entry = snapshot().entries.remove(1);
    assert_eq!(entry.display_name(), "side");
    entry.path = path("/");
    assert_eq!(entry.display_name(), "/");
    entry.path = path("/tmp/..");
    assert_eq!(entry.display_name(), "/tmp/..");
    entry.path = path("");
    assert_eq!(entry.display_name(), "");
    entry.path = FilePath::from_bytes(vec![b'/', 0xff, b'/', b'x']);
    assert_eq!(entry.display_name(), "x");
    entry.path = FilePath::from_bytes(vec![b'/', b'x', b'/', 0xff]);
    assert_eq!(entry.display_name(), "<worktree>");
}

#[test]
fn nothing_leaks_over_an_empty_line() {
    let entries = |stdout: &str| {
        parse_worktree_snapshot(stdout, &vec![], &None, &None)
            .unwrap()
            .entries
    };
    let before = "worktree /a\n";
    let after = format!("HEAD {FIRST}\nbranch refs/heads/b\nworktree /c\n");
    let mut expected = entries(before);
    expected.extend(entries(&after));
    assert_eq!(entries(&format!("{before}\n{after}")), expected);
    assert_eq!(expected.len(), 2);
    assert_eq!(expected[0].head_oid, None);
    assert_eq!(entries(&format!("{before}{after}"))[0].head_oid, oid(FIRST));
}
