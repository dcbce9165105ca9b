//! Reading the output of `git worktree list --porcelain`.

use vstd::prelude::*;
use vstd::slice::slice_subrange;

use crate::error::{ErrorModel, WorktreeError};
use crate::oid::{
    full_hex, is_full_hex, is_hex_digit, opt_oid, parse_reads_back_digits, parsed_oid,
    parsed_oid_is_full, zero_hex, NonZeroOid, HEX_LEN,
};
use crate::path::{opt_path, same_path, FilePath};
use crate::reference::{opt_name, ReferenceName};
use crate::repo::{clone_path, ExitCode, RepoPaths};
use crate::text::{
    after_prefix, chars_of, decode_text, is_line, lines, lines_from, lines_of, lines_read_back,
    lines_split_at_line_end, same_text, strip_prefix, texts, utf8_text, written,
};
use crate::worktree::{
    clone_name, clone_oid, current_worktree_is_marked_so, entry_models, first_where, is_current,
    lemma_first_where, EntryModel, WorktreeEntry, WorktreeSnapshot,
};

verus! {

/// What is checked out in a worktree.
pub struct HeadModel {
    pub head_oid: Option<Seq<char>>,
    pub branch_name: Option<Seq<char>>,
}

/// What follows `key` in the last of the lines that start with it.
pub open spec fn last_value(lines: Seq<Seq<char>>, key: Seq<char>) -> Option<Seq<char>>
    decreases lines.len(),
{
    if lines.len() == 0 {
        None
    } else if after_prefix(lines.last(), key) is Some {
        after_prefix(lines.last(), key)
    } else {
        last_value(lines.drop_last(), key)
    }
}

/// Whether a `HEAD` value can be read: it is an object ID or all zeros.
pub open spec fn is_readable_head(value: Seq<char>) -> bool {
    parsed_oid(value) is Some || value == zero_hex()
}

/// Whether every `HEAD` line in `lines` can be read.
pub open spec fn has_readable_heads(lines: Seq<Seq<char>>) -> bool {
    forall|i: int|
        0 <= i < lines.len() ==> (after_prefix(#[trigger] lines[i], "HEAD "@) matches Some(value)
            ==> is_readable_head(value))
}

/// What is checked out in a worktree with the given lines. The last `HEAD` and
/// the last `branch` line count, and a `detached` line anywhere means that there
/// is no branch.
pub open spec fn head_info(lines: Seq<Seq<char>>) -> HeadModel {
    HeadModel {
        head_oid: match last_value(lines, "HEAD "@) {
            Some(value) => parsed_oid(value),
            None => None,
        },
        branch_name: if lines.contains("detached"@) {
            None
        } else {
            last_value(lines, "branch "@)
        },
    }
}

/// What a listing says of one worktree: its path and the lines that follow.
pub struct Record {
    pub path: Seq<char>,
    pub lines: Seq<Seq<char>>,
}

/// Where the lines that belong to one worktree end, from `start` on: at an empty
/// line, at the next `worktree` line or at the end of the listing.
pub open spec fn record_end(lines: Seq<Seq<char>>, start: int) -> int
    decreases lines.len() - start,
{
    if start >= lines.len() || lines[start].len() == 0 || after_prefix(lines[start], "worktree "@)
        is Some {
        start
    } else {
        record_end(lines, start + 1)
    }
}

/// The records in `lines` from position `start` on: one for each `worktree`
/// line.
pub open spec fn records_from(lines: Seq<Seq<char>>, start: int) -> Seq<Record>
    decreases lines.len() - start,
{
    if start < 0 || start >= lines.len() {
        seq![]
    } else {
        let rest = records_from(lines, start + 1);
        match after_prefix(lines[start], "worktree "@) {
            Some(path) => seq![
                Record {
                    path,
                    lines: lines.subrange(start + 1, record_end(lines, start + 1)),
                },
            ] + rest,
            None => rest,
        }
    }
}

/// The records in a listing.
pub open spec fn records_of(listing: Seq<char>) -> Seq<Record> {
    records_from(lines_of(listing), 0)
}

/// The path to use for `path`: what it was canonicalized to, or else itself.
pub open spec fn best_path(path: Seq<u8>, canonical: Option<Seq<u8>>) -> Seq<u8> {
    match canonical {
        Some(canonical) => canonical,
        None => path,
    }
}

/// Whether `path` is the path of a worktree that may be missing.
pub open spec fn is_path_of(worktree: Option<Seq<u8>>, path: Seq<u8>) -> bool {
    worktree matches Some(worktree) && same_path(worktree, path)
}

/// The entry for a record whose path was canonicalized to `canonical`.
pub open spec fn entry_of(
    record: Record,
    canonical: Option<Seq<u8>>,
    current: Option<Seq<u8>>,
    main: Option<Seq<u8>>,
) -> EntryModel {
    let path = best_path(vstd::utf8::encode_utf8(record.path), canonical);
    EntryModel {
        path,
        head_oid: head_info(record.lines).head_oid,
        branch_name: head_info(record.lines).branch_name,
        is_current: is_path_of(current, path),
        is_main: is_path_of(main, path),
    }
}

/// What the path at position `i` was canonicalized to, if it was.
pub open spec fn canonical_at(canonical: Seq<Option<FilePath>>, i: int) -> Option<Seq<u8>> {
    if 0 <= i < canonical.len() {
        opt_path(canonical[i])
    } else {
        None
    }
}

/// The entries for the records of a listing.
pub open spec fn entries_of(
    records: Seq<Record>,
    canonical: Seq<Option<FilePath>>,
    current: Option<Seq<u8>>,
    main: Option<Seq<u8>>,
) -> Seq<EntryModel> {
    Seq::new(
        records.len(),
        |i: int| entry_of(records[i], canonical_at(canonical, i), current, main),
    )
}

/// Whether the `HEAD` lines of every record can be read.
pub open spec fn are_readable(records: Seq<Record>) -> bool {
    forall|i: int| 0 <= i < records.len() ==> has_readable_heads(#[trigger] records[i].lines)
}

/// Whether `text` is forty zeros.
fn is_zero_oid(text: &str) -> (zero: bool)
    ensures
        zero == (text@ == zero_hex()),
{
    let chars = chars_of(text);
    if chars.len() != HEX_LEN {
        return false;
    }
    let mut i: usize = 0;
    while i < chars.len()
        invariant
            chars@ == text@,
            i <= chars.len() == HEX_LEN,
            forall|j: int| 0 <= j < i ==> chars@[j] == '0',
        decreases chars.len() - i,
    {
        if chars[i] != '0' {
            assert(text@[i as int] != zero_hex()[i as int]);
            return false;
        }
        i = i + 1;
    }
    assert(text@ =~= zero_hex());
    true
}

/// Read what is checked out in a worktree from the lines that describe it.
pub fn parse_worktree_head_info(lines: &[String]) -> (info: Result<
    (Option<NonZeroOid>, Option<ReferenceName>),
    WorktreeError,
>)
    ensures
        match info {
            Ok((head_oid, branch_name)) => {
                &&& has_readable_heads(texts(lines@))
                &&& opt_oid(head_oid) == head_info(texts(lines@)).head_oid
                &&& opt_name(branch_name) == head_info(texts(lines@)).branch_name
            },
            Err(error) => !has_readable_heads(texts(lines@)) && error@
                == ErrorModel::ParsingHeadOid,
        },
{
    let ghost all = texts(lines@);
    let mut head_oid: Option<NonZeroOid> = None;
    let mut branch_name: Option<ReferenceName> = None;
    let mut detached = false;
    let mut i: usize = 0;
    while i < lines.len()
        invariant
            all == texts(lines@),
            i <= lines@.len(),
            has_readable_heads(all.take(i as int)),
            opt_oid(head_oid) == (match last_value(all.take(i as int), "HEAD "@) {
                Some(value) => parsed_oid(value),
                None => None,
            }),
            opt_name(branch_name) == last_value(all.take(i as int), "branch "@),
            detached == all.take(i as int).contains("detached"@),
        decreases lines.len() - i,
    {
        let line = lines[i].as_str();
        proof {
            assert(all.take(i + 1).drop_last() =~= all.take(i as int));
            assert(all.take(i + 1) =~= all.take(i as int).push(line@));
            lemma_prefixes_differ(line@);
            lemma_contains_push(all.take(i as int), line@, "detached"@);
        }
        if let Some(value) = strip_prefix(line, "HEAD ") {
            head_oid = NonZeroOid::parse(value.as_str());
            if head_oid.is_none() && !is_zero_oid(value.as_str()) {
                assert(!has_readable_heads(all)) by {
                    assert(all[i as int] == line@);
                }
                return Err(WorktreeError::ParsingHeadOid);
            }
            assert(is_readable_head(value@));
            assert(parsed_oid(zero_hex()) is None) by {
                assert(full_hex(zero_hex()) =~= zero_hex());
            }
        } else if let Some(value) = strip_prefix(line, "branch ") {
            branch_name = Some(ReferenceName { name: value });
        } else if same_text(line, "detached") {
            detached = true;
        }
        assert(has_readable_heads(all.take(i + 1))) by {
            assert forall|j: int| 0 <= j < i + 1 implies (after_prefix(
                #[trigger] all.take(i + 1)[j],
                "HEAD "@,
            ) matches Some(value) ==> is_readable_head(value)) by {
                if j < i {
                    assert(all.take(i + 1)[j] == all.take(i as int)[j]);
                }
            }
        }
        i = i + 1;
    }
    assert(all.take(i as int) =~= all);
    if detached {
        branch_name = None;
    }
    Ok((head_oid, branch_name))
}

/// The path to use for `path`, given what it was canonicalized to, if that
/// succeeded.
pub fn canonicalize_best_effort(path: FilePath, canonical: Option<FilePath>) -> (best: FilePath)
    ensures
        best@ == best_path(path@, opt_path(canonical)),
{
    match canonical {
        Some(canonical) => canonical,
        None => path,
    }
}

/// Whether `path` is the path of a worktree that may be missing.
fn is_path(worktree: &Option<FilePath>, path: &FilePath) -> (same: bool)
    ensures
        same == is_path_of(opt_path(*worktree), path@),
{
    match worktree {
        Some(worktree) => worktree.is_same(path),
        None => false,
    }
}

/// The paths of the worktrees in a listing, as they are listed.
pub open spec fn listed_paths(listing: Seq<char>) -> Seq<Seq<u8>> {
    records_of(listing).map_values(|record: Record| vstd::utf8::encode_utf8(record.path))
}

/// The bytes of each path in turn.
pub open spec fn path_bytes(paths: Seq<FilePath>) -> Seq<Seq<u8>> {
    paths.map_values(|path: FilePath| path@)
}

/// The paths of the worktrees in a listing, as they are listed and in that
/// order. These are the paths to canonicalize for `parse_worktree_snapshot`.
pub fn listed_worktree_paths(stdout: &str) -> (paths: Vec<FilePath>)
    ensures
        path_bytes(paths@) == listed_paths(stdout@),
{
    let lines = lines(stdout);
    let ghost all = texts(lines@);
    let ghost records = records_from(all, 0);
    let ghost to_bytes = |record: Record| vstd::utf8::encode_utf8(record.path);
    let mut paths: Vec<FilePath> = Vec::new();
    let mut i: usize = 0;
    while i < lines.len()
        invariant
            all == texts(lines@),
            records == records_from(all, 0),
            to_bytes == (|record: Record| vstd::utf8::encode_utf8(record.path)),
            i <= lines.len(),
            path_bytes(paths@) + records_from(all, i as int).map_values(to_bytes)
                =~= records.map_values(to_bytes),
        decreases lines.len() - i,
    {
        let ghost before = paths@;
        if let Some(path) = strip_prefix(lines[i].as_str(), "worktree ") {
            assert(all[i as int] == lines@[i as int]@);
            let path = FilePath::from_text(path.as_str());
            paths.push(path);
            assert(path_bytes(paths@) =~= path_bytes(before).push(path@));
        }
        assert(path_bytes(paths@) + records_from(all, i + 1).map_values(to_bytes) =~= path_bytes(
            before,
        ) + records_from(all, i as int).map_values(to_bytes));
        i = i + 1;
    }
    assert(path_bytes(paths@) =~= records.map_values(to_bytes));
    paths
}

/// Read a worktree listing.
///
/// `canonical_paths` holds, for each of the `listed_worktree_paths`, what it was
/// canonicalized to, or `None` where that failed; where it is too short, the
/// listed paths stand.
pub fn parse_worktree_snapshot(
    stdout: &str,
    canonical_paths: &Vec<Option<FilePath>>,
    current_worktree_path: &Option<FilePath>,
    main_worktree_path: &Option<FilePath>,
) -> (snapshot: Result<WorktreeSnapshot, WorktreeError>)
    ensures
        match snapshot {
            Ok(snapshot) => are_readable(records_of(stdout@)) && snapshot@ == entries_of(
                records_of(stdout@),
                canonical_paths@,
                opt_path(*current_worktree_path),
                opt_path(*main_worktree_path),
            ),
            Err(error) => !are_readable(records_of(stdout@)) && error@
                == ErrorModel::ParsingHeadOid,
        },
{
    let lines = lines(stdout);
    let ghost all = texts(lines@);
    let ghost records = records_of(stdout@);
    let ghost expected = entries_of(
        records,
        canonical_paths@,
        opt_path(*current_worktree_path),
        opt_path(*main_worktree_path),
    );
    let mut entries: Vec<WorktreeEntry> = Vec::new();
    let mut i: usize = 0;
    assert(records.skip(0) =~= records);
    assert(entry_models(entries@) =~= expected.take(0));
    while i < lines.len()
        invariant
            all == texts(lines@),
            records == records_of(stdout@),
            expected == entries_of(
                records,
                canonical_paths@,
                opt_path(*current_worktree_path),
                opt_path(*main_worktree_path),
            ),
            i <= lines.len(),
            entries.len() <= records.len(),
            records_from(all, i as int) == records.skip(entries.len() as int),
            entry_models(entries@) == expected.take(entries.len() as int),
            are_readable(records.take(entries.len() as int)),
        decreases lines.len() - i,
    {
        let ghost count = entries.len() as int;
        let ghost before = entries@;
        if let Some(path) = strip_prefix(lines[i].as_str(), "worktree ") {
            assert(all[i as int] == lines@[i as int]@);
            let mut end: usize = i + 1;
            while end < lines.len() && !lines[end].as_str().is_empty() && strip_prefix(
                lines[end].as_str(),
                "worktree ",
            ).is_none()
                invariant
                    all == texts(lines@),
                    i < end <= lines.len(),
                    record_end(all, i + 1) == record_end(all, end as int),
                decreases lines.len() - end,
            {
                assert(all[end as int] == lines@[end as int]@);
                end = end + 1;
            }
            proof {
                if end < lines.len() {
                    assert(all[end as int] == lines@[end as int]@);
                }
            }
            assert(record_end(all, i + 1) == end);
            let own_lines = slice_subrange(lines.as_slice(), i + 1, end);
            let ghost record = Record { path: path@, lines: all.subrange(i + 1, end as int) };
            assert(texts(own_lines@) =~= record.lines);
            assert(records_from(all, i as int)[0] == record);
            assert(records.skip(count).len() > 0);
            assert(records[count] == records.skip(count)[0]);
            let (head_oid, branch_name) = match parse_worktree_head_info(own_lines) {
                Ok(info) => info,
                Err(error) => {
                    assert(!has_readable_heads(records[count].lines));
                    return Err(error);
                },
            };
            let canonical = if entries.len() < canonical_paths.len() {
                match &canonical_paths[entries.len()] {
                    Some(canonical) => Some(canonical.clone()),
                    None => None,
                }
            } else {
                None
            };
            assert(opt_path(canonical) == canonical_at(canonical_paths@, count));
            let path = canonicalize_best_effort(FilePath::from_text(path.as_str()), canonical);
            let is_current = is_path(current_worktree_path, &path);
            let is_main = is_path(main_worktree_path, &path);
            entries.push(WorktreeEntry { path, head_oid, branch_name, is_current, is_main });
            proof {
                assert(entries@[count]@ == expected[count]);
                assert(entry_models(entries@) =~= entry_models(before).push(expected[count]));
                assert(expected.take(count + 1) =~= expected.take(count).push(expected[count]));
                assert(records.skip(count + 1) =~= records.skip(count).skip(1));
                assert(records_from(all, i as int).skip(1) =~= records_from(all, i + 1));
                assert forall|j: int| 0 <= j < count + 1 implies has_readable_heads(
                    #[trigger] records.take(count + 1)[j].lines,
                ) by {
                    if j < count {
                        assert(records.take(count)[j] == records[j]);
                    }
                }
            }
        } else {
            assert(all[i as int] == lines@[i as int]@);
        }
        i = i + 1;
    }
    assert(entries.len() == records.len()) by {
        assert(records.skip(entries.len() as int).len() == 0);
    }
    assert(records.take(entries.len() as int) =~= records);
    assert(expected.take(entries.len() as int) =~= expected);
    Ok(WorktreeSnapshot { entries })
}

/// The arguments to list the worktrees with.
pub fn worktree_list_args() -> (args: Vec<String>)
    ensures
        texts(args@) == seq!["worktree"@, "list"@, "--porcelain"@],
{
    let mut args: Vec<String> = Vec::new();
    args.push("worktree".to_owned());
    args.push("list".to_owned());
    args.push("--porcelain".to_owned());
    assert(texts(args@) =~= seq!["worktree"@, "list"@, "--porcelain"@]);
    args
}

/// What the file system canonicalized paths to; `None` where that failed.
#[derive(Debug)]
pub struct CanonicalPaths {
    /// The path of the repository's working copy.
    pub working_copy: Option<FilePath>,
    /// The path of the main working copy.
    pub main_working_copy: Option<FilePath>,
    /// The listed paths, in the order of the listing.
    pub listed: Vec<Option<FilePath>>,
}

/// The path to use for a path that may be missing.
pub open spec fn opt_best_path(path: Option<Seq<u8>>, canonical: Option<Seq<u8>>) -> Option<
    Seq<u8>,
> {
    match path {
        Some(path) => Some(best_path(path, canonical)),
        None => None,
    }
}

fn opt_canonicalize(path: Option<FilePath>, canonical: &Option<FilePath>) -> (best: Option<
    FilePath,
>)
    ensures
        opt_path(best) == opt_best_path(opt_path(path), opt_path(*canonical)),
{
    match path {
        Some(path) => Some(canonicalize_best_effort(path, clone_path(canonical))),
        None => None,
    }
}

/// Whether the worktrees can be discovered, given that listing them exited with
/// success or not and wrote `stdout`.
pub open spec fn discovery_error(success: bool, stdout: Seq<u8>) -> Option<ErrorModel> {
    if !success {
        None
    } else {
        match utf8_text(stdout) {
            None => Some(ErrorModel::DecodingWorktreeList),
            Some(listing) => if are_readable(records_of(listing)) {
                None
            } else {
                Some(ErrorModel::ParsingHeadOid)
            },
        }
    }
}

/// The worktrees that are discovered: none where listing them failed, and else
/// those in the listing.
pub open spec fn discovered(
    repo: RepoPaths,
    canonical: CanonicalPaths,
    success: bool,
    stdout: Seq<u8>,
) -> Seq<EntryModel> {
    if !success {
        seq![]
    } else {
        entries_of(
            records_of(utf8_text(stdout)->0),
            canonical.listed@,
            opt_best_path(opt_path(repo.working_copy), opt_path(canonical.working_copy)),
            opt_best_path(repo.main_bytes(), opt_path(canonical.main_working_copy)),
        )
    }
}

/// Discover all linked worktrees, given whether the ambient `git` command could
/// list them and what it wrote.
pub fn get_linked_worktrees_for_repo(
    repo: &RepoPaths,
    canonical: &CanonicalPaths,
    success: bool,
    stdout: &Vec<u8>,
) -> (snapshot: Result<WorktreeSnapshot, WorktreeError>)
    ensures
        match snapshot {
            Ok(snapshot) => discovery_error(success, stdout@) is None && snapshot@ == discovered(
                *repo,
                *canonical,
                success,
                stdout@,
            ),
            Err(error) => discovery_error(success, stdout@) == Some(error@),
        },
{
    if !success {
        return Ok(WorktreeSnapshot::default());
    }
    let current = opt_canonicalize(clone_path(&repo.working_copy), &canonical.working_copy);
    let main = opt_canonicalize(repo.main_working_copy(), &canonical.main_working_copy);
    match decode_text(stdout) {
        Some(listing) => parse_worktree_snapshot(
            listing.as_str(),
            &canonical.listed,
            &current,
            &main,
        ),
        None => Err(WorktreeError::DecodingWorktreeList),
    }
}

/// Discover all linked worktrees, given the exit code of the command that lists
/// them and what it wrote.
pub fn get_linked_worktrees(
    repo: &RepoPaths,
    canonical: &CanonicalPaths,
    exit_code: ExitCode,
    stdout: &Vec<u8>,
) -> (snapshot: Result<WorktreeSnapshot, WorktreeError>)
    ensures
        match snapshot {
            Ok(snapshot) => discovery_error(exit_code.code == 0, stdout@) is None && snapshot@
                == discovered(*repo, *canonical, exit_code.code == 0, stdout@),
            Err(error) => discovery_error(exit_code.code == 0, stdout@) == Some(error@),
        },
{
    get_linked_worktrees_for_repo(repo, canonical, exit_code.is_success(), stdout)
}

/// What HEAD points to.
#[derive(Debug)]
pub struct ResolvedReferenceInfo {
    /// The commit, if there is one.
    pub oid: Option<NonZeroOid>,
    /// The reference, if HEAD points to one.
    pub reference_name: Option<ReferenceName>,
}

/// The worktree that HEAD is read in: the current one, or else a worktree at no
/// path that stands for it.
pub open spec fn current_head(
    entries: Seq<EntryModel>,
    head_oid: Option<Seq<char>>,
    branch_name: Option<Seq<char>>,
) -> EntryModel {
    match first_where(entries, is_current()) {
        Some(entry) => entry,
        None => EntryModel {
            path: seq![],
            head_oid,
            branch_name,
            is_current: true,
            is_main: false,
        },
    }
}

/// Find the current worktree-relative HEAD information among linked worktrees.
pub fn make_current_worktree_head(
    snapshot: &WorktreeSnapshot,
    head_info: &ResolvedReferenceInfo,
) -> (entry: Option<WorktreeEntry>)
    ensures
        entry matches Some(entry) && entry@ == current_head(
            snapshot@,
            opt_oid(head_info.oid),
            opt_name(head_info.reference_name),
        ),
{
    match snapshot.current() {
        Some(entry) => Some(entry.clone()),
        None => {
            let entry = WorktreeEntry {
                path: FilePath::from_bytes(Vec::new()),
                head_oid: clone_oid(&head_info.oid),
                branch_name: clone_name(&head_info.reference_name),
                is_current: true,
                is_main: false,
            };
            assert(entry@.path =~= seq![]);
            Some(entry)
        },
    }
}

/// No line starts with two of the keywords, nor is `detached` behind one.
proof fn lemma_prefixes_differ(line: Seq<char>)
    ensures
        after_prefix(line, "HEAD "@) is Some ==> after_prefix(line, "branch "@) is None && line
            != "detached"@,
        after_prefix(line, "branch "@) is Some ==> line != "detached"@,
{
    reveal_strlit("HEAD ");
    reveal_strlit("branch ");
    reveal_strlit("detached");
    assert("HEAD "@[0] == 'H');
    assert("branch "@[0] == 'b');
    assert("detached"@[0] == 'd');
}

proof fn lemma_contains_push(lines: Seq<Seq<char>>, line: Seq<char>, wanted: Seq<char>)
    ensures
        lines.push(line).contains(wanted) == (lines.contains(wanted) || line == wanted),
{
    let all = lines.push(line);
    assert(all[lines.len() as int] == line);
    if lines.contains(wanted) {
        let i = choose|i: int| 0 <= i < lines.len() && lines[i] == wanted;
        assert(all[i] == wanted);
    }
    if all.contains(wanted) {
        let i = choose|i: int| 0 <= i < all.len() && all[i] == wanted;
        assert(i < lines.len() ==> lines[i] == wanted);
    }
}

/// Whether a line can follow the `worktree` line of a record.
pub open spec fn is_record_line(line: Seq<char>) -> bool {
    is_line(line) && line.len() > 0 && after_prefix(line, "worktree "@) is None
}

/// Whether a record can be written out line by line.
pub open spec fn is_writable(record: Record) -> bool {
    &&& is_line("worktree "@ + record.path)
    &&& forall|i: int| 0 <= i < record.lines.len() ==> is_record_line(#[trigger] record.lines[i])
}

/// The lines of a listing: for each record its `worktree` line, the lines that
/// follow and an empty one.
pub open spec fn written_lines(records: Seq<Record>) -> Seq<Seq<char>>
    decreases records.len(),
{
    if records.len() == 0 {
        seq![]
    } else {
        let record = records.first();
        seq!["worktree "@ + record.path] + record.lines + seq![Seq::<char>::empty()]
            + written_lines(records.drop_first())
    }
}

proof fn lemma_record_end(lines: Seq<Seq<char>>, start: int)
    requires
        0 <= start <= lines.len(),
    ensures
        start <= record_end(lines, start) <= lines.len(),
    decreases lines.len() - start,
{
    if start < lines.len() && lines[start].len() > 0 && after_prefix(lines[start], "worktree "@)
        is None {
        lemma_record_end(lines, start + 1);
    }
}

proof fn lemma_record_end_behind(before: Seq<Seq<char>>, lines: Seq<Seq<char>>, start: int)
    requires
        0 <= start <= lines.len(),
    ensures
        record_end(before + lines, before.len() + start) == before.len() + record_end(lines, start),
    decreases lines.len() - start,
{
    if start < lines.len() {
        assert((before + lines)[before.len() + start] == lines[start]);
        if lines[start].len() > 0 && after_prefix(lines[start], "worktree "@) is None {
            lemma_record_end_behind(before, lines, start + 1);
        }
    }
}

proof fn lemma_records_behind(before: Seq<Seq<char>>, lines: Seq<Seq<char>>, start: int)
    requires
        0 <= start <= lines.len(),
    ensures
        records_from(before + lines, before.len() + start) == records_from(lines, start),
    decreases lines.len() - start,
{
    let all = before + lines;
    if start < lines.len() {
        assert(all[before.len() + start] == lines[start]);
        lemma_records_behind(before, lines, start + 1);
        lemma_record_end(lines, start + 1);
        lemma_record_end_behind(before, lines, start + 1);
        let end = record_end(lines, start + 1);
        assert(all.subrange(before.len() + start + 1, before.len() + end) =~= lines.subrange(
            start + 1,
            end,
        ));
    }
}

/// Lines that can follow a `worktree` line start no record, and the record ends
/// at the empty line behind them.
proof fn lemma_record_lines(lines: Seq<Seq<char>>, start: int, end: int)
    requires
        0 <= start <= end < lines.len(),
        forall|i: int| start <= i < end ==> is_record_line(#[trigger] lines[i]),
        lines[end].len() == 0,
    ensures
        record_end(lines, start) == end,
        records_from(lines, start) == records_from(lines, end + 1),
    decreases end - start,
{
    if start < end {
        assert(is_record_line(lines[start]));
        lemma_record_lines(lines, start + 1, end);
    } else {
        reveal_strlit("worktree ");
        assert(!"worktree "@.is_prefix_of(lines[end]));
    }
}

proof fn lemma_written_records_read_back(records: Seq<Record>)
    requires
        forall|i: int| 0 <= i < records.len() ==> is_writable(#[trigger] records[i]),
    ensures
        records_from(written_lines(records), 0) == records,
        forall|i: int|
            0 <= i < written_lines(records).len() ==> is_line(#[trigger] written_lines(records)[i]),
    decreases records.len(),
{
    if records.len() > 0 {
        let record = records.first();
        let others = records.drop_first();
        let rest = written_lines(others);
        let header = "worktree "@ + record.path;
        let own = seq![header] + record.lines + seq![Seq::<char>::empty()];
        let all = own + rest;
        assert(written_lines(records) == all);
        assert(is_writable(records[0]));
        assert forall|i: int| 0 <= i < others.len() implies is_writable(#[trigger] others[i]) by {
            assert(others[i] == records[i + 1]);
        }
        lemma_written_records_read_back(others);
        let end = record.lines.len() as int + 1;
        assert(all[end] =~= Seq::<char>::empty());
        assert forall|i: int| 1 <= i < end implies is_record_line(#[trigger] all[i]) by {
            assert(all[i] == record.lines[i - 1]);
        }
        lemma_record_lines(all, 1, end);
        assert(own.len() == end + 1);
        lemma_records_behind(own, rest, 0);
        assert(all[0] == header);
        assert("worktree "@ =~= header.take("worktree "@.len() as int));
        assert(header.skip("worktree "@.len() as int) =~= record.path);
        assert(all.subrange(1, end) =~= record.lines);
        assert(records_from(all, 0) =~= seq![record] + others);
        assert(records =~= seq![record] + others);
        assert forall|i: int| 0 <= i < all.len() implies is_line(#[trigger] all[i]) by {
            if 1 <= i < end {
                assert(is_record_line(all[i]));
            } else if i > end {
                assert(all[i] == rest[i - own.len()]);
            }
        }
    }
}

/// A listing that is written out line by line is read back as it was: every
/// worktree is found, in order, with the path and the lines that were written for
/// it.
pub proof fn listing_reads_back(records: Seq<Record>)
    requires
        forall|i: int| 0 <= i < records.len() ==> is_writable(#[trigger] records[i]),
    ensures
        records_of(written(written_lines(records))) == records,
{
    lemma_written_records_read_back(records);
    lines_read_back(written_lines(records));
}

/// Whether no record goes on over the start of `lines`.
spec fn is_boundary(lines: Seq<Seq<char>>) -> bool {
    lines.len() == 0 || lines[0].len() == 0 || after_prefix(lines[0], "worktree "@) is Some
}

proof fn lemma_record_end_at_boundary(before: Seq<Seq<char>>, after: Seq<Seq<char>>, start: int)
    requires
        0 <= start <= before.len(),
        is_boundary(after),
    ensures
        record_end(before + after, start) == record_end(before, start),
    decreases before.len() - start,
{
    let all = before + after;
    if start < before.len() {
        assert(all[start] == before[start]);
        lemma_record_end_at_boundary(before, after, start + 1);
    } else if after.len() > 0 {
        assert(all[start] == after[0]);
    }
}

proof fn lemma_records_around_boundary(before: Seq<Seq<char>>, after: Seq<Seq<char>>, start: int)
    requires
        0 <= start <= before.len(),
        is_boundary(after),
    ensures
        records_from(before + after, start) == records_from(before, start) + records_from(after, 0),
    decreases before.len() - start,
{
    let all = before + after;
    if start < before.len() {
        assert(all[start] == before[start]);
        lemma_records_around_boundary(before, after, start + 1);
        lemma_record_end(before, start + 1);
        lemma_record_end_at_boundary(before, after, start + 1);
        let end = record_end(before, start + 1);
        assert(all.subrange(start + 1, end) =~= before.subrange(start + 1, end));
    } else {
        lemma_records_behind(before, after, 0);
    }
    assert(records_from(all, start) =~= records_from(before, start) + records_from(after, 0));
}

proof fn lemma_no_records(lines: Seq<Seq<char>>, start: int)
    requires
        0 <= start <= lines.len(),
        forall|i: int|
            0 <= i < lines.len() ==> !"worktree "@.is_prefix_of(#[trigger] lines[i]),
    ensures
        records_from(lines, start) == Seq::<Record>::empty(),
    decreases lines.len() - start,
{
    if start < lines.len() {
        assert(!"worktree "@.is_prefix_of(lines[start]));
        lemma_no_records(lines, start + 1);
    }
}

proof fn lemma_record_end_in_own(own: Seq<Seq<char>>, start: int)
    requires
        0 <= start <= own.len(),
        forall|i: int|
            0 <= i < own.len() ==> (#[trigger] own[i]).len() > 0 && !"worktree "@.is_prefix_of(
                own[i],
            ),
    ensures
        record_end(own, start) == own.len(),
    decreases own.len() - start,
{
    if start < own.len() {
        assert(own[start].len() > 0);
        lemma_record_end_in_own(own, start + 1);
    }
}

/// Lines of which none starts a worktree hold no record.
pub proof fn stray_lines_hold_no_record(lines: Seq<Seq<char>>)
    requires
        forall|i: int|
            0 <= i < lines.len() ==> !"worktree "@.is_prefix_of(#[trigger] lines[i]),
    ensures
        records_from(lines, 0).len() == 0,
{
    lemma_no_records(lines, 0);
}

/// A `worktree` line starts a record, whatever is listed before it. The record
/// holds the path on that line and the lines behind it, up to an empty line, the
/// next `worktree` line or the end; what is listed there is read as if it stood
/// alone.
pub proof fn worktree_line_starts_a_record(
    before: Seq<Seq<char>>,
    path: Seq<char>,
    own: Seq<Seq<char>>,
    after: Seq<Seq<char>>,
)
    requires
        forall|i: int|
            0 <= i < own.len() ==> (#[trigger] own[i]).len() > 0 && !"worktree "@.is_prefix_of(
                own[i],
            ),
        after.len() == 0 || after[0].len() == 0 || "worktree "@.is_prefix_of(after[0]),
    ensures
        records_from(before + seq!["worktree "@ + path] + own + after, 0) == records_from(before, 0)
            + seq![(Record { path, lines: own })] + records_from(after, 0),
{
    let header = "worktree "@ + path;
    let record = seq![header] + own;
    assert(before + seq![header] + own + after =~= before + (record + after));
    lemma_key_and_value("worktree "@, path);
    assert((record + after)[0] == header);
    lemma_records_around_boundary(before, record + after, 0);
    lemma_records_around_boundary(record, after, 0);
    lemma_record_end_in_own(own, 0);
    lemma_record_end_behind(seq![header], own, 0);
    lemma_no_records(own, 0);
    lemma_records_behind(seq![header], own, 0);
    assert(record[0] == header);
    assert(record.subrange(1, 1 + own.len() as int) =~= own);
    assert(records_from(record, 0) =~= seq![(Record { path, lines: own })]);
    assert(records_from(before, 0) + (records_from(record, 0) + records_from(after, 0))
        =~= records_from(before, 0) + seq![(Record { path, lines: own })] + records_from(after, 0));
}

/// A listing is read line by line, and the paths in it are those of its records.
pub proof fn listings_are_read_by_lines(listing: Seq<char>, i: int)
    ensures
        records_of(listing) == records_from(lines_of(listing), 0),
        listed_paths(listing).len() == records_of(listing).len(),
        0 <= i < records_of(listing).len() ==> listed_paths(listing)[i] == vstd::utf8::encode_utf8(
            records_of(listing)[i].path,
        ),
{
}

/// Nothing leaks over an empty line: what is listed before it and what is listed
/// behind it are read as if each stood alone.
pub proof fn empty_line_separates(before: Seq<char>, after: Seq<char>)
    requires
        before.len() == 0 || before.last() == '\n',
    ensures
        records_of(before.push('\n') + after) == records_of(before) + records_of(after),
{
    let gap = seq!['\n'];
    assert(before.push('\n') + after =~= before + (gap + after));
    lines_split_at_line_end(before, gap + after);
    lines_split_at_line_end(gap, after);
    assert(lines_of(gap) =~= seq![Seq::<char>::empty()]) by {
        assert(gap.subrange(0, 0) =~= Seq::<char>::empty());
        assert(lines_from(gap, 1) =~= seq![]);
    }
    let empty = seq![Seq::<char>::empty()];
    lemma_records_around_boundary(lines_of(before), empty + lines_of(after), 0);
    lemma_records_behind(empty, lines_of(after), 0);
    reveal_strlit("worktree ");
    assert((empty + lines_of(after))[0].len() == 0);
    assert(!"worktree "@.is_prefix_of((empty + lines_of(after))[0]));
}

/// A worktree that is listed as detached has no branch, whatever else is listed
/// of it.
pub proof fn detached_worktree_has_no_branch(
    record: Record,
    canonical: Option<Seq<u8>>,
    current: Option<Seq<u8>>,
    main: Option<Seq<u8>>,
)
    requires
        record.lines.contains("detached"@),
    ensures
        entry_of(record, canonical, current, main).branch_name is None,
{
}

/// An object ID that a listing gives is a full one, and never the zero ID.
pub proof fn listed_head_is_full(lines: Seq<Seq<char>>)
    ensures
        head_info(lines).head_oid matches Some(hex) ==> is_full_hex(hex),
{
    if let Some(value) = last_value(lines, "HEAD "@) {
        parsed_oid_is_full(value);
    }
}

/// Seen from the main working copy, the current worktree is the main one and the
/// main one is current.
pub proof fn main_worktree_is_current_at_home(
    repo: RepoPaths,
    canonical: CanonicalPaths,
    success: bool,
    stdout: Seq<u8>,
    i: int,
)
    requires
        repo.parent is None,
        opt_path(canonical.working_copy) == opt_path(canonical.main_working_copy),
        0 <= i < discovered(repo, canonical, success, stdout).len(),
    ensures
        ({
            let entry = discovered(repo, canonical, success, stdout)[i];
            entry.is_current == entry.is_main
        }),
{
}

/// There always is a current HEAD, and it is that of a current worktree.
pub proof fn current_head_is_current(
    entries: Seq<EntryModel>,
    head_oid: Option<Seq<char>>,
    branch_name: Option<Seq<char>>,
)
    ensures
        current_head(entries, head_oid, branch_name).is_current,
{
    lemma_first_where(entries, is_current());
}

/// The lines that a listing has for what is checked out in a worktree. A branch
/// without commits is listed with the zero object ID.
pub open spec fn head_lines(head: HeadModel) -> Seq<Seq<char>> {
    seq![
        "HEAD "@ + match head.head_oid {
            Some(hex) => hex,
            None => zero_hex(),
        },
        match head.branch_name {
            Some(branch_name) => "branch "@ + branch_name,
            None => "detached"@,
        },
    ]
}

/// Whether what is checked out can be listed on lines of its own.
pub open spec fn is_listable(head: HeadModel) -> bool {
    &&& head.head_oid matches Some(hex) ==> is_full_hex(hex)
    &&& head.branch_name matches Some(branch_name) ==> is_line(branch_name)
}

proof fn lemma_key_and_value(key: Seq<char>, value: Seq<char>)
    ensures
        after_prefix(key + value, key) == Some(value),
{
    assert(key =~= (key + value).take(key.len() as int));
    assert((key + value).skip(key.len() as int) =~= value);
}

/// What is checked out in a worktree is read back from the lines that list it.
pub proof fn head_reads_back(head: HeadModel)
    requires
        is_listable(head),
    ensures
        has_readable_heads(head_lines(head)),
        head_info(head_lines(head)) == head,
{
    let lines = head_lines(head);
    let value = match head.head_oid {
        Some(hex) => hex,
        None => zero_hex(),
    };
    let first = seq![lines[0]];
    lemma_key_and_value("HEAD "@, value);
    if let Some(hex) = head.head_oid {
        parse_reads_back_digits(hex);
    } else {
        assert(full_hex(zero_hex()) =~= zero_hex());
    }
    lemma_prefixes_differ(lines[0]);
    lemma_prefixes_differ(lines[1]);
    assert(lines.drop_last() =~= first);
    assert(first.drop_last() =~= Seq::<Seq<char>>::empty());
    assert(last_value(first, "HEAD "@) == Some(value));
    assert(last_value(first, "branch "@) is None) by {
        assert(last_value(first.drop_last(), "branch "@) is None);
    }
    match head.branch_name {
        Some(branch_name) => {
            lemma_key_and_value("branch "@, branch_name);
            assert(last_value(lines, "HEAD "@) == Some(value));
            assert(!lines.contains("detached"@));
        },
        None => {
            reveal_strlit("HEAD ");
            reveal_strlit("detached");
            assert("HEAD "@[0] != "detached"@[0]);
            assert(last_value(lines, "HEAD "@) == Some(value));
            assert(lines[1] == "detached"@);
        },
    }
    assert(parsed_oid(value) == head.head_oid);
}

/// A worktree as it is listed.
pub struct ListedWorktree {
    pub path: Seq<char>,
    pub head: HeadModel,
}

/// The records that list worktrees.
pub open spec fn records_for(worktrees: Seq<ListedWorktree>) -> Seq<Record> {
    worktrees.map_values(
        |worktree: ListedWorktree|
            Record { path: worktree.path, lines: head_lines(worktree.head) },
    )
}

proof fn lemma_key_and_value_on_line(key: Seq<char>, value: Seq<char>)
    requires
        key.len() > 0,
        is_line(key),
        is_line(value),
    ensures
        is_line(key + value),
{
    let line = key + value;
    assert forall|i: int| 0 <= i < line.len() implies line[i] != '\n' by {
        if i < key.len() {
            assert(key.contains(key[i]));
        } else {
            assert(value.contains(value[i - key.len()]));
        }
    }
    assert(line.last() == if value.len() > 0 {
        value.last()
    } else {
        key.last()
    });
}

proof fn lemma_hex_is_line(hex: Seq<char>)
    requires
        forall|i: int| 0 <= i < hex.len() ==> is_hex_digit(#[trigger] hex[i]),
    ensures
        is_line(hex),
{
    if hex.len() > 0 {
        assert(is_hex_digit(hex[hex.len() - 1]));
    }
}

/// Worktrees that are listed with their paths, commits and branches are read back
/// with them, in the order in which they are listed.
pub proof fn listed_worktrees_read_back(
    worktrees: Seq<ListedWorktree>,
    canonical: Seq<Option<FilePath>>,
    current: Option<Seq<u8>>,
    main: Option<Seq<u8>>,
)
    requires
        forall|i: int|
            0 <= i < worktrees.len() ==> is_line((#[trigger] worktrees[i]).path) && is_listable(
                worktrees[i].head,
            ),
    ensures
        ({
            let records = records_of(written(written_lines(records_for(worktrees))));
            let entries = entries_of(records, canonical, current, main);
            &&& are_readable(records)
            &&& entries.len() == worktrees.len()
            &&& forall|i: int|
                0 <= i < entries.len() ==> {
                    &&& (#[trigger] entries[i]).path == best_path(
                        vstd::utf8::encode_utf8(worktrees[i].path),
                        canonical_at(canonical, i),
                    )
                    &&& entries[i].head_oid == worktrees[i].head.head_oid
                    &&& entries[i].branch_name == worktrees[i].head.branch_name
                    &&& entries[i].is_current == is_path_of(current, entries[i].path)
                    &&& entries[i].is_main == is_path_of(main, entries[i].path)
                }
        }),
{
    let records = records_for(worktrees);
    reveal_strlit("worktree ");
    reveal_strlit("HEAD ");
    reveal_strlit("branch ");
    reveal_strlit("detached");
    assert forall|i: int| 0 <= i < records.len() implies is_writable(#[trigger] records[i])
        && has_readable_heads(records[i].lines) && head_info(records[i].lines)
        == worktrees[i].head by {
        let head = worktrees[i].head;
        let lines = head_lines(head);
        head_reads_back(head);
        lemma_key_and_value_on_line("worktree "@, worktrees[i].path);
        if let Some(hex) = head.head_oid {
            lemma_hex_is_line(hex);
            lemma_key_and_value_on_line("HEAD "@, hex);
        } else {
            lemma_hex_is_line(zero_hex());
            lemma_key_and_value_on_line("HEAD "@, zero_hex());
        }
        if let Some(branch_name) = head.branch_name {
            lemma_key_and_value_on_line("branch "@, branch_name);
        }
        assert(lines[0][0] == 'H');
        assert(lines[1][0] == 'b' || lines[1][0] == 'd');
        assert("worktree "@[0] == 'w');
        assert(is_record_line(lines[0]));
        assert(is_record_line(lines[1]));
    }
    listing_reads_back(records);
}

/// What is checked out is read line by line. A `HEAD` line decides the commit and a
/// `branch` line the branch, whatever came before, but that a `detached` line takes
/// the branch away for good; no other line changes anything.
pub proof fn heads_are_read_line_by_line(
    lines: Seq<Seq<char>>,
    line: Seq<char>,
    value: Seq<char>,
)
    ensures
        head_info(seq![]).head_oid is None && head_info(seq![]).branch_name is None,
        line == "HEAD "@ + value ==> {
            &&& head_info(lines.push(line)).head_oid == parsed_oid(value)
            &&& head_info(lines.push(line)).branch_name == head_info(lines).branch_name
        },
        line == "branch "@ + value ==> {
            &&& head_info(lines.push(line)).head_oid == head_info(lines).head_oid
            &&& lines.contains("detached"@) ==> head_info(lines.push(line)).branch_name is None
            &&& !lines.contains("detached"@) ==> head_info(lines.push(line)).branch_name == Some(
                value,
            )
        },
        line == "detached"@ ==> {
            &&& head_info(lines.push(line)).head_oid == head_info(lines).head_oid
            &&& head_info(lines.push(line)).branch_name is None
        },
        !"HEAD "@.is_prefix_of(line) && !"branch "@.is_prefix_of(line) && line != "detached"@
            ==> head_info(lines.push(line)) == head_info(lines),
{
    let all = lines.push(line);
    assert(all.drop_last() =~= lines);
    lemma_contains_push(lines, line, "detached"@);
    lemma_prefixes_differ(line);
    lemma_key_and_value("HEAD "@, value);
    lemma_key_and_value("branch "@, value);
    reveal_strlit("HEAD ");
    reveal_strlit("branch ");
    reveal_strlit("detached");
    if line == "detached"@ {
        assert("HEAD "@[0] != line[0] && "branch "@[0] != line[0]);
    }
}

/// A listing is readable where each `HEAD` line in it gives an object ID or forty
/// zeros; no other line makes it unreadable.
pub proof fn unreadable_heads_are_refused(
    lines: Seq<Seq<char>>,
    line: Seq<char>,
    value: Seq<char>,
)
    ensures
        has_readable_heads(seq![]),
        line == "HEAD "@ + value ==> (has_readable_heads(lines.push(line)) <==> {
            &&& has_readable_heads(lines)
            &&& parsed_oid(value) is Some || (value.len() == 40 && forall|i: int|
                0 <= i < value.len() ==> #[trigger] value[i] == '0')
        }),
        !"HEAD "@.is_prefix_of(line) ==> (has_readable_heads(lines.push(line))
            <==> has_readable_heads(lines)),
{
    let all = lines.push(line);
    lemma_key_and_value("HEAD "@, value);
    assert forall|i: int| 0 <= i < lines.len() implies #[trigger] lines[i] == all[i] by {}
    assert(all[lines.len() as int] == line);
    if value.len() == 40 && forall|i: int| 0 <= i < value.len() ==> #[trigger] value[i] == '0' {
        assert(value =~= zero_hex());
    }
    if has_readable_heads(all) {
        assert forall|i: int| 0 <= i < lines.len() implies (after_prefix(
            #[trigger] lines[i],
            "HEAD "@,
        ) matches Some(value) ==> is_readable_head(value)) by {
            assert(all[i] == lines[i]);
        }
    }
}

/// A record becomes a worktree at the path that its path was canonicalized to, or
/// else at its path; with the commit and the branch that its lines give; which is
/// current where the current path is the same, and main where the main path is.
pub proof fn records_become_worktrees(
    records: Seq<Record>,
    canonical: Seq<Option<FilePath>>,
    current: Option<Seq<u8>>,
    main: Option<Seq<u8>>,
    i: int,
)
    requires
        0 <= i < records.len(),
    ensures
        entries_of(records, canonical, current, main).len() == records.len(),
        ({
            let entry = entries_of(records, canonical, current, main)[i];
            &&& i < canonical.len() && canonical[i] is Some ==> entry.path
                == canonical[i]->0.bytes@
            &&& !(i < canonical.len() && canonical[i] is Some) ==> entry.path
                == vstd::utf8::encode_utf8(records[i].path)
            &&& entry.head_oid == head_info(records[i].lines).head_oid
            &&& entry.branch_name == head_info(records[i].lines).branch_name
            &&& entry.is_current <==> (current matches Some(path) && same_path(path, entry.path))
            &&& entry.is_main <==> (main matches Some(path) && same_path(path, entry.path))
        }),
{
}

/// A listing that failed gives no worktrees and no error. One that succeeded is
/// refused where it is no text, or where some record of it has an unreadable head;
/// else it gives the worktrees in it, seen from the working copy and the main
/// working copy, each as it was canonicalized or else as it is.
pub proof fn discovery_reads_the_listing(
    repo: RepoPaths,
    canonical: CanonicalPaths,
    stdout: Seq<u8>,
    listing: Seq<char>,
)
    ensures
        discovery_error(false, stdout) is None,
        discovered(repo, canonical, false, stdout).len() == 0,
        utf8_text(stdout) is None ==> discovery_error(true, stdout) == Some(
            ErrorModel::DecodingWorktreeList,
        ),
        utf8_text(stdout) == Some(listing) ==> {
            let records = records_of(listing);
            &&& (exists|i: int|
                0 <= i < records.len() && !has_readable_heads(#[trigger] records[i].lines))
                ==> discovery_error(true, stdout) == Some(ErrorModel::ParsingHeadOid)
            &&& (forall|i: int|
                0 <= i < records.len() ==> has_readable_heads(#[trigger] records[i].lines))
                ==> discovery_error(true, stdout) is None
            &&& discovered(repo, canonical, true, stdout) == entries_of(
                records,
                canonical.listed@,
                match (repo.working_copy, canonical.working_copy) {
                    (None, _) => None,
                    (Some(path), None) => Some(path.bytes@),
                    (Some(_), Some(path)) => Some(path.bytes@),
                },
                match (repo.main_bytes(), canonical.main_working_copy) {
                    (None, _) => None,
                    (Some(path), None) => Some(path),
                    (Some(_), Some(path)) => Some(path.bytes@),
                },
            )
        },
{
}

/// HEAD is that of the first current worktree; where none is current, it is HEAD as
/// it was resolved, in a worktree at no path.
pub proof fn current_head_is_that_of_the_current_worktree(
    entries: Seq<EntryModel>,
    head_oid: Option<Seq<char>>,
    branch_name: Option<Seq<char>>,
    i: int,
)
    ensures
        0 <= i < entries.len() && entries[i].is_current && (forall|j: int|
            0 <= j < i ==> !(#[trigger] entries[j]).is_current) ==> current_head(
            entries,
            head_oid,
            branch_name,
        ) == entries[i],
        (forall|j: int| 0 <= j < entries.len() ==> !(#[trigger] entries[j]).is_current) ==> {
            let entry = current_head(entries, head_oid, branch_name);
            &&& entry.path.len() == 0
            &&& entry.head_oid == head_oid
            &&& entry.branch_name == branch_name
            &&& entry.is_current
            &&& !entry.is_main
        },
{
    current_worktree_is_marked_so(entries);
    if first_where(entries, is_current()) is Some {
        let entry = first_where(entries, is_current())->0;
        let k = choose|k: int|
            0 <= k < entries.len() && #[trigger] entries[k] == entry && forall|j: int|
                0 <= j < k ==> !(#[trigger] entries[j]).is_current;
        assert(entries[k].is_current);
    }
}

} // verus!
