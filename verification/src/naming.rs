//! Where a new worktree goes and what it is called.

use vstd::prelude::*;

use crate::error::{enclose, ErrorModel, WorktreeError};
use crate::path::{
    file_name, joined, joined_name_is_last, joining_keeps_both_paths, names_from,
    names_of_one_segment, opt_path, FilePath, DOT, SEPARATOR,
};
use crate::repo::RepoPaths;
use crate::text::{
    chars_of, decimal, decimal_is_unique, decode_text, same_text, shown_text, string_of,
    strip_prefix, to_decimal, utf8_text,
};
use crate::worktree::display_name;

verus! {

/// Whether a character may stand in a worktree name as it is.
pub open spec fn is_usable(ch: char) -> bool {
    ('a' <= ch && ch <= 'z') || ('A' <= ch && ch <= 'Z') || ('0' <= ch && ch <= '9') || ch == '-'
        || ch == '_' || ch == '.'
}

/// Whether a character is cut off at either end of a worktree name.
pub open spec fn is_edge(ch: char) -> bool {
    ch == '.' || ch == ' ' || ch == '-'
}

/// `name` with one `-` in place of each run of characters that are not usable.
pub open spec fn collapsed(name: Seq<char>) -> Seq<char>
    decreases name.len(),
{
    if name.len() == 0 {
        seq![]
    } else {
        let before = collapsed(name.drop_last());
        if is_usable(name.last()) {
            before.push(name.last())
        } else if name.len() > 1 && !is_usable(name[name.len() - 2]) {
            before
        } else {
            before.push('-')
        }
    }
}

/// `text` from its first character on that is not cut off.
pub open spec fn trimmed_start(text: Seq<char>) -> Seq<char>
    decreases text.len(),
{
    if text.len() > 0 && is_edge(text.first()) {
        trimmed_start(text.drop_first())
    } else {
        text
    }
}

/// `text` up to its last character that is not cut off.
pub open spec fn trimmed_end(text: Seq<char>) -> Seq<char>
    decreases text.len(),
{
    if text.len() > 0 && is_edge(text.last()) {
        trimmed_end(text.drop_last())
    } else {
        text
    }
}

/// What is left of a requested worktree name.
pub open spec fn sanitized(name: Seq<char>) -> Seq<char> {
    trimmed_end(trimmed_start(collapsed(name)))
}

/// Make a requested name usable as the name of a directory. Runs of characters
/// other than ASCII letters, digits, `-`, `_` and `.` become one `-`, and `.` and
/// `-` are cut off at both ends.
pub fn sanitize_worktree_name(name: &str) -> (result: Result<String, WorktreeError>)
    ensures
        match result {
            Ok(text) => text@ == sanitized(name@) && text@.len() > 0,
            Err(error) => sanitized(name@).len() == 0 && error@ == ErrorModel::UnusableName(name@),
        },
{
    let mut kept: Vec<char> = Vec::new();
    let mut previous_was_separator = false;
    for ch in it: name.chars()
        invariant
            it.seq() == name@,
            kept@ == collapsed(it.seq().take(it.index() as int)),
            previous_was_separator == (it.index() > 0 && !is_usable(name@[it.index() - 1])),
    {
        assert(it.seq().take(it.index() + 1).drop_last() =~= it.seq().take(it.index() as int));
        if ('a' <= ch && ch <= 'z') || ('A' <= ch && ch <= 'Z') || ('0' <= ch && ch <= '9') || ch
            == '-' || ch == '_' || ch == '.' {
            previous_was_separator = false;
            kept.push(ch);
        } else {
            if !previous_was_separator {
                kept.push('-');
            }
            previous_was_separator = true;
        }
    }
    assert(name@.take(name@.len() as int) =~= name@);

    let mut start: usize = 0;
    assert(kept@.skip(0) =~= kept@);
    while start < kept.len() && (kept[start] == '.' || kept[start] == ' ' || kept[start] == '-')
        invariant
            start <= kept.len(),
            trimmed_start(kept@.skip(start as int)) == trimmed_start(kept@),
        decreases kept.len() - start,
    {
        assert(kept@.skip(start as int).drop_first() =~= kept@.skip(start + 1));
        start = start + 1;
    }
    assert(trimmed_start(kept@) == kept@.skip(start as int));
    let mut end: usize = kept.len();
    assert(kept@.subrange(start as int, end as int) =~= kept@.skip(start as int));
    while start < end && (kept[end - 1] == '.' || kept[end - 1] == ' ' || kept[end - 1] == '-')
        invariant
            start <= end <= kept.len(),
            trimmed_end(kept@.subrange(start as int, end as int)) == sanitized(name@),
        decreases end - start,
    {
        assert(kept@.subrange(start as int, end as int).drop_last() =~= kept@.subrange(
            start as int,
            end - 1,
        ));
        end = end - 1;
    }
    if start == end {
        return Err(WorktreeError::UnusableName(name.to_owned()));
    }
    Ok(string_of(&kept, start, end))
}

/// `text` without the slashes that it starts with.
pub open spec fn without_slashes(text: Seq<char>) -> Seq<char>
    decreases text.len(),
{
    if text.len() > 0 && text.first() == '/' {
        without_slashes(text.drop_first())
    } else {
        text
    }
}

/// Whether a path as it is shown starts at the home directory.
pub open spec fn is_in_home(path: Seq<char>) -> bool {
    path == "~"@ || "~/"@.is_prefix_of(path)
}

/// What the home directory is joined with for a path as it is shown.
pub open spec fn below_home(path: Seq<char>) -> Seq<u8> {
    vstd::utf8::encode_utf8(without_slashes(path.skip(1)))
}

/// Put the home directory in place of a `~` that `path` starts with.
pub fn expand_home(path: FilePath, home_dir: &Option<FilePath>) -> (result: Result<
    FilePath,
    WorktreeError,
>)
    ensures
        match result {
            Ok(expanded) => if is_in_home(shown_text(path@)) {
                home_dir matches Some(home_dir) && expanded@ == joined(
                    home_dir@,
                    below_home(shown_text(path@)),
                )
            } else {
                expanded@ == path@
            },
            Err(error) => is_in_home(shown_text(path@)) && home_dir is None && error@
                == ErrorModel::HomeNotSet,
        },
        shown_text(path@) != "~"@ && !"~/"@.is_prefix_of(shown_text(path@)) ==> (
        result matches Ok(expanded) && expanded@ == path@),
{
    let text = path.to_text_lossy();
    if same_text(text.as_str(), "~") || strip_prefix(text.as_str(), "~/").is_some() {
        let home_dir = match home_dir {
            Some(home_dir) => home_dir,
            None => {
                return Err(WorktreeError::HomeNotSet);
            },
        };
        let chars = chars_of(text.as_str());
        proof {
            reveal_strlit("~");
            reveal_strlit("~/");
        }
        let mut start: usize = 1;
        while start < chars.len() && chars[start] == '/'
            invariant
                1 <= start <= chars.len(),
                without_slashes(chars@.skip(start as int)) == without_slashes(chars@.skip(1)),
            decreases chars.len() - start,
        {
            assert(chars@.skip(start as int).drop_first() =~= chars@.skip(start + 1));
            start = start + 1;
        }
        let suffix = string_of(&chars, start, chars.len());
        assert(suffix@ =~= chars@.skip(start as int));
        Ok(home_dir.join(&FilePath::from_text(suffix.as_str())))
    } else {
        Ok(path)
    }
}

/// The directory that worktrees are kept in: the configured one or else
/// `.worktrees` in the home directory. `None` where that needs a home directory
/// and there is none.
pub open spec fn worktree_root(configured: Option<Seq<u8>>, home_dir: Option<Seq<u8>>) -> Option<
    Seq<u8>,
> {
    match (configured, home_dir) {
        (Some(path), Some(home_dir)) => Some(
            if is_in_home(shown_text(path)) {
                joined(home_dir, below_home(shown_text(path)))
            } else {
                path
            },
        ),
        (Some(path), None) => if is_in_home(shown_text(path)) {
            None
        } else {
            Some(path)
        },
        (None, Some(home_dir)) => Some(
            joined(home_dir, vstd::utf8::encode_utf8(".worktrees"@)),
        ),
        (None, None) => None,
    }
}

/// The directory that worktrees are kept in, given what is configured and where
/// the home directory is.
pub fn get_worktree_root(configured: Option<FilePath>, home_dir: &Option<FilePath>) -> (result:
    Result<FilePath, WorktreeError>)
    ensures
        match result {
            Ok(root) => worktree_root(opt_path(configured), opt_path(*home_dir)) == Some(root@),
            Err(error) => worktree_root(opt_path(configured), opt_path(*home_dir)) is None
                && error@ == ErrorModel::HomeNotSet,
        },
        configured matches Some(path) && shown_text(path@) != "~"@ && !"~/"@.is_prefix_of(
            shown_text(path@),
        ) ==> (result matches Ok(root) && root@ == configured->0@),
        configured is None ==> (home_dir matches Some(home_dir) ==> (result matches Ok(root)
            && root@ == joined(home_dir@, vstd::utf8::encode_utf8(".worktrees"@)))),
{
    match configured {
        Some(path) => expand_home(path, home_dir),
        None => match home_dir {
            Some(home_dir) => Ok(home_dir.join(&FilePath::from_text(".worktrees"))),
            None => Err(WorktreeError::HomeNotSet),
        },
    }
}

/// What a repository with the given main working copy is called.
pub open spec fn repo_name(main_working_copy: Seq<u8>) -> Seq<char> {
    match file_name(main_working_copy) {
        Some(name) => match utf8_text(name) {
            Some(name) => name,
            None => "repo"@,
        },
        None => "repo"@,
    }
}

/// What a repository is called: the last name in the path of its main working
/// copy.
pub fn repo_display_name(repo: &RepoPaths) -> (result: Result<String, WorktreeError>)
    ensures
        match result {
            Ok(name) => repo.main_bytes() matches Some(path) && name@ == repo_name(path),
            Err(error) => repo.main_bytes() is None && error@ == ErrorModel::NoWorkingCopy,
        },
{
    let path = match repo.main_working_copy() {
        Some(path) => path,
        None => {
            return Err(WorktreeError::NoWorkingCopy);
        },
    };
    if let Some(name) = path.file_name() {
        if let Some(name) = decode_text(&name) {
            return Ok(name);
        }
    }
    Ok("repo".to_owned())
}

/// The name to try in the given attempt: at first the name itself, then with the
/// number of the attempt behind it.
pub open spec fn numbered_name(name: Seq<char>, attempt: nat) -> Seq<char> {
    if attempt <= 1 {
        name
    } else {
        name + "-"@ + decimal(attempt)
    }
}

/// The path to try in the given attempt.
pub open spec fn candidate_path(base: Seq<u8>, name: Seq<char>, attempt: nat) -> Seq<u8> {
    joined(base, vstd::utf8::encode_utf8(numbered_name(name, attempt)))
}

/// The path that a search from the given attempt on comes to within `limit`
/// attempts, where `is_taken` says which paths exist.
pub open spec fn search_result(
    base: Seq<u8>,
    name: Seq<char>,
    attempt: nat,
    is_taken: spec_fn(Seq<u8>) -> bool,
    limit: nat,
) -> Option<Seq<u8>>
    decreases limit,
{
    let path = candidate_path(base, name, attempt);
    if limit == 0 {
        None
    } else if is_taken(path) {
        search_result(base, name, attempt + 1, is_taken, (limit - 1) as nat)
    } else {
        Some(path)
    }
}

/// How many attempts there can be.
pub const MAX_ATTEMPTS: u32 = 0x7fff_fffe;

/// The search for a path that is not taken.
#[derive(Debug)]
pub struct WorktreePathSearch {
    /// The directory that the worktree goes to.
    pub base: FilePath,
    /// The name it gets if that is not taken.
    pub name: String,
    /// The number of the attempt, from one on.
    pub attempt: u32,
}

/// What comes after an attempt.
#[derive(Debug)]
pub enum PathSearchStep {
    /// The path is not taken.
    Found(FilePath),
    /// The path is taken, and this is the next attempt.
    Continue(WorktreePathSearch),
}

impl WorktreePathSearch {
    /// The bytes of the path to try.
    pub open spec fn candidate_bytes(&self) -> Seq<u8> {
        candidate_path(self.base@, self.name@, self.attempt as nat)
    }

    /// The path that the search comes to within `limit` attempts, where `is_taken`
    /// says which paths exist.
    pub open spec fn result(
        &self,
        is_taken: spec_fn(Seq<u8>) -> bool,
        limit: nat,
    ) -> Option<Seq<u8>> {
        search_result(self.base@, self.name@, self.attempt as nat, is_taken, limit)
    }

    /// The path to try.
    pub fn candidate(&self) -> (path: FilePath)
        ensures
            path@ == self.candidate_bytes(),
    {
        let name = if self.attempt <= 1 {
            self.name.clone()
        } else {
            enclose(self.name.as_str(), "-", to_decimal(self.attempt as u64).as_str())
        };
        self.base.join(&FilePath::from_text(name.as_str()))
    }

    /// Go on, given whether the path to try exists. Wherever that is so, what is
    /// found is what the search comes to, and the next attempt comes to the same.
    pub fn step(self, exists: bool) -> (step: PathSearchStep)
        requires
            exists ==> self.attempt < MAX_ATTEMPTS,
        ensures
            match step {
                PathSearchStep::Found(path) => {
                    &&& !exists
                    &&& path@ == self.candidate_bytes()
                    &&& forall|is_taken: spec_fn(Seq<u8>) -> bool, limit: nat|
                        limit > 0 && !is_taken(path@) ==> #[trigger] self.result(is_taken, limit)
                            == Some(path@)
                },
                PathSearchStep::Continue(next) => {
                    &&& exists
                    &&& next.base == self.base
                    &&& next.name == self.name
                    &&& next.attempt == self.attempt + 1
                    &&& forall|is_taken: spec_fn(Seq<u8>) -> bool, limit: nat|
                        limit > 0 && is_taken(self.candidate_bytes()) ==> #[trigger] self.result(
                            is_taken,
                            limit,
                        ) == next.result(is_taken, (limit - 1) as nat)
                },
            },
    {
        if exists {
            PathSearchStep::Continue(
                WorktreePathSearch {
                    base: self.base,
                    name: self.name,
                    attempt: self.attempt + 1,
                },
            )
        } else {
            PathSearchStep::Found(self.candidate())
        }
    }
}

/// Why there is no path for a new worktree, if there is none.
pub open spec fn worktree_path_error(
    root: Option<Seq<u8>>,
    main_working_copy: Option<Seq<u8>>,
    requested_name: Seq<char>,
) -> Option<ErrorModel> {
    if root is None {
        Some(ErrorModel::HomeNotSet)
    } else if main_working_copy is None {
        Some(ErrorModel::NoWorkingCopy)
    } else if sanitized(requested_name).len() == 0 {
        Some(ErrorModel::UnusableName(requested_name))
    } else {
        None
    }
}

/// Start the search for the path of a new worktree: in the directory of the
/// repository's name below the worktree root, under the sanitized name.
pub fn get_worktree_path(
    configured_root: Option<FilePath>,
    home_dir: &Option<FilePath>,
    repo: &RepoPaths,
    requested_name: &str,
) -> (result: Result<WorktreePathSearch, WorktreeError>)
    ensures
        ({
            let root = worktree_root(opt_path(configured_root), opt_path(*home_dir));
            let error = worktree_path_error(root, repo.main_bytes(), requested_name@);
            match result {
                Ok(search) => {
                    &&& error is None
                    &&& search.base@ == joined(
                        root->0,
                        vstd::utf8::encode_utf8(repo_name(repo.main_bytes()->0)),
                    )
                    &&& search.name@ == sanitized(requested_name@)
                    &&& search.attempt == 1
                },
                Err(found) => error == Some(found@),
            }
        }),
{
    let root = match get_worktree_root(configured_root, home_dir) {
        Ok(root) => root,
        Err(error) => {
            return Err(error);
        },
    };
    let repo_name = match repo_display_name(repo) {
        Ok(repo_name) => repo_name,
        Err(error) => {
            return Err(error);
        },
    };
    let name = match sanitize_worktree_name(requested_name) {
        Ok(name) => name,
        Err(error) => {
            return Err(error);
        },
    };
    let base = root.join(&FilePath::from_text(repo_name.as_str()));
    Ok(WorktreePathSearch { base, name, attempt: 1 })
}

/// Whether a name needs no sanitizing.
pub open spec fn is_clean(name: Seq<char>) -> bool {
    &&& forall|i: int| 0 <= i < name.len() ==> is_usable(#[trigger] name[i])
    &&& name.len() > 0 ==> !is_edge(name.first()) && !is_edge(name.last())
}

proof fn lemma_collapsed_is_usable(name: Seq<char>)
    ensures
        forall|i: int| 0 <= i < collapsed(name).len() ==> is_usable(#[trigger] collapsed(name)[i]),
    decreases name.len(),
{
    if name.len() > 0 {
        let before = collapsed(name.drop_last());
        lemma_collapsed_is_usable(name.drop_last());
        assert forall|i: int| 0 <= i < collapsed(name).len() implies is_usable(
            #[trigger] collapsed(name)[i],
        ) by {
            if i < before.len() {
                assert(collapsed(name)[i] == before[i]);
            }
        }
    }
}

proof fn lemma_usable_is_kept(name: Seq<char>)
    requires
        forall|i: int| 0 <= i < name.len() ==> is_usable(#[trigger] name[i]),
    ensures
        collapsed(name) == name,
    decreases name.len(),
{
    if name.len() > 0 {
        assert forall|i: int| 0 <= i < name.drop_last().len() implies is_usable(
            #[trigger] name.drop_last()[i],
        ) by {
            assert(name.drop_last()[i] == name[i]);
        }
        lemma_usable_is_kept(name.drop_last());
        assert(is_usable(name[name.len() - 1]));
        assert(name.drop_last().push(name.last()) =~= name);
    }
}

proof fn lemma_trimmed_start(text: Seq<char>)
    ensures
        trimmed_start(text).len() <= text.len(),
        trimmed_start(text) == text.skip(text.len() - trimmed_start(text).len()),
        trimmed_start(text).len() > 0 ==> !is_edge(trimmed_start(text).first()),
    decreases text.len(),
{
    if text.len() > 0 && is_edge(text.first()) {
        lemma_trimmed_start(text.drop_first());
        assert(trimmed_start(text) =~= text.skip(text.len() - trimmed_start(text).len()));
    } else {
        assert(text.skip(0) =~= text);
    }
}

proof fn lemma_trimmed_end(text: Seq<char>)
    ensures
        trimmed_end(text).len() <= text.len(),
        trimmed_end(text) == text.take(trimmed_end(text).len() as int),
        trimmed_end(text).len() > 0 ==> !is_edge(trimmed_end(text).last()),
    decreases text.len(),
{
    if text.len() > 0 && is_edge(text.last()) {
        lemma_trimmed_end(text.drop_last());
        assert(trimmed_end(text) =~= text.take(trimmed_end(text).len() as int));
    } else {
        assert(text.take(text.len() as int) =~= text);
    }
}

/// A sanitized name holds nothing but ASCII letters, digits, `-`, `_` and `.`,
/// and neither starts nor ends with `-` or `.`.
pub proof fn sanitized_name_is_clean(name: Seq<char>)
    ensures
        is_clean(sanitized(name)),
{
    let all = collapsed(name);
    let start = trimmed_start(all);
    lemma_collapsed_is_usable(name);
    lemma_trimmed_start(all);
    lemma_trimmed_end(start);
    let result = sanitized(name);
    assert forall|i: int| 0 <= i < result.len() implies is_usable(#[trigger] result[i]) by {
        assert(result[i] == start[i]);
        assert(start[i] == all[all.len() - start.len() + i]);
    }
    if result.len() > 0 {
        assert(result.first() == start.first());
    }
}

/// A name that needs no sanitizing is kept as it is.
pub proof fn clean_name_is_kept(name: Seq<char>)
    requires
        is_clean(name),
    ensures
        sanitized(name) == name,
{
    lemma_usable_is_kept(name);
}

/// Sanitizing a name again changes nothing.
pub proof fn sanitizing_is_idempotent(name: Seq<char>)
    ensures
        sanitized(sanitized(name)) == sanitized(name),
{
    sanitized_name_is_clean(name);
    clean_name_is_kept(sanitized(name));
}

proof fn lemma_decimal_is_usable(value: nat)
    ensures
        decimal(value).len() > 0,
        forall|i: int|
            0 <= i < decimal(value).len() ==> is_usable(#[trigger] decimal(value)[i]) && !is_edge(
                decimal(value)[i],
            ),
    decreases value,
{
    if value >= 10 {
        lemma_decimal_is_usable(value / 10);
    }
}

proof fn lemma_numbered_name_is_clean(name: Seq<char>, attempt: nat)
    requires
        is_clean(name),
        name.len() > 0,
    ensures
        is_clean(numbered_name(name, attempt)),
        numbered_name(name, attempt).len() > 0,
{
    if attempt > 1 {
        let all = numbered_name(name, attempt);
        lemma_decimal_is_usable(attempt);
        reveal_strlit("-");
        assert forall|i: int| 0 <= i < all.len() implies is_usable(#[trigger] all[i]) by {
            if i < name.len() {
                assert(all[i] == name[i]);
            } else if i > name.len() {
                assert(all[i] == decimal(attempt)[i - name.len() - 1]);
            }
        }
        assert(all.first() == name.first());
        assert(all.last() == decimal(attempt).last());
    }
}

/// Different attempts try different names.
pub proof fn attempts_differ(name: Seq<char>, left: nat, right: nat)
    requires
        1 <= left < right,
    ensures
        numbered_name(name, left) != numbered_name(name, right),
{
    reveal_strlit("-");
    lemma_decimal_is_usable(right);
    if left > 1 && numbered_name(name, left) == numbered_name(name, right) {
        let start = name.len() as int + 1;
        assert(numbered_name(name, left).skip(start) =~= decimal(left));
        assert(numbered_name(name, right).skip(start) =~= decimal(right));
        decimal_is_unique(left, right);
    }
}

/// Whatever name was asked for and however many attempts it took, the worktree is
/// called by the sanitized name, with the number of the attempt if it was not the
/// first.
pub proof fn created_worktree_is_called_by_its_name(
    base: Seq<u8>,
    requested_name: Seq<char>,
    attempt: nat,
)
    requires
        sanitized(requested_name).len() > 0,
    ensures
        display_name(candidate_path(base, sanitized(requested_name), attempt)) == numbered_name(
            sanitized(requested_name),
            attempt,
        ),
{
    let name = numbered_name(sanitized(requested_name), attempt);
    let bytes = vstd::utf8::encode_utf8(name);
    lemma_numbered_name_is_one_segment(requested_name, attempt);
    vstd::utf8::encode_utf8_valid_utf8(name);
    vstd::utf8::encode_utf8_decode_utf8(name);
    assert(seq![DOT].last() == DOT);
    assert(seq![DOT, DOT].last() == DOT);
    joined_name_is_last(base, bytes);
}

/// The search comes to the first path that does not exist.
pub proof fn search_finds_the_first_free_path(
    base: Seq<u8>,
    name: Seq<char>,
    attempt: nat,
    is_taken: spec_fn(Seq<u8>) -> bool,
    free: nat,
    limit: nat,
)
    requires
        attempt <= free < attempt + limit,
        !is_taken(candidate_path(base, name, free)),
        forall|i: nat|
            attempt <= i < free ==> is_taken(#[trigger] candidate_path(base, name, i)),
    ensures
        search_result(base, name, attempt, is_taken, limit) == Some(
            candidate_path(base, name, free),
        ),
    decreases limit,
{
    if attempt < free {
        assert(is_taken(candidate_path(base, name, attempt)));
        search_finds_the_first_free_path(
            base,
            name,
            attempt + 1,
            is_taken,
            free,
            (limit - 1) as nat,
        );
    }
}

/// A configured worktree root is used as it is, with or without a home directory,
/// unless it starts at `~`. One that does needs a home directory and is below it.
/// Without a configured root, the root is `.worktrees` in the home directory, which
/// then has to be there.
pub proof fn configured_root_is_used(path: Seq<u8>, home_dir: Option<Seq<u8>>)
    ensures
        shown_text(path) != "~"@ && !"~/"@.is_prefix_of(shown_text(path)) ==> worktree_root(
            Some(path),
            home_dir,
        ) == Some(path),
        shown_text(path) == "~"@ || "~/"@.is_prefix_of(shown_text(path)) ==> (worktree_root(
            Some(path),
            home_dir,
        ) is Some <==> home_dir is Some),
        home_dir matches Some(home_dir) ==> worktree_root(None, Some(home_dir)) == Some(
            joined(home_dir, vstd::utf8::encode_utf8(".worktrees"@)),
        ),
        worktree_root(None, None) is None,
{
}

/// Behind `~`, any number of slashes leads to what follows them below the home
/// directory.
pub proof fn tilde_stands_for_the_home_directory(
    home_dir: Seq<u8>,
    path: Seq<u8>,
    slashes: Seq<char>,
    rest: Seq<char>,
)
    requires
        shown_text(path) == "~"@ + slashes + rest,
        forall|i: int| 0 <= i < slashes.len() ==> #[trigger] slashes[i] == '/',
        slashes.len() > 0 || rest.len() == 0,
        rest.len() > 0 ==> rest[0] != '/',
    ensures
        worktree_root(Some(path), Some(home_dir)) == Some(
            joined(home_dir, vstd::utf8::encode_utf8(rest)),
        ),
{
    let text = shown_text(path);
    reveal_strlit("~");
    reveal_strlit("~/");
    assert(text.skip(1) =~= slashes + rest);
    lemma_without_slashes(slashes, rest);
    if slashes.len() == 0 {
        assert(text =~= "~"@);
    } else {
        assert(text[1] == slashes[0]);
        assert("~/"@ =~= text.take(2));
    }
}

proof fn lemma_without_slashes(slashes: Seq<char>, rest: Seq<char>)
    requires
        forall|i: int| 0 <= i < slashes.len() ==> #[trigger] slashes[i] == '/',
        rest.len() > 0 ==> rest[0] != '/',
    ensures
        without_slashes(slashes + rest) == rest,
    decreases slashes.len(),
{
    let text = slashes + rest;
    if slashes.len() == 0 {
        assert(text =~= rest);
    } else {
        let fewer = slashes.drop_first();
        assert(text.first() == slashes[0]);
        assert(text.drop_first() =~= fewer + rest);
        assert forall|i: int| 0 <= i < fewer.len() implies #[trigger] fewer[i] == '/' by {
            assert(fewer[i] == slashes[i + 1]);
        }
        lemma_without_slashes(fewer, rest);
    }
}

/// ASCII letters, digits, `-`, `_` and `.` are kept in a name. Another character
/// becomes `-`, unless it follows one that became `-`.
pub proof fn unusable_runs_become_one_dash(name: Seq<char>, ch: char)
    ensures
        collapsed(seq![]).len() == 0,
        ({
            let is_kept = |ch: char|
                97 <= ch as int <= 122 || 65 <= ch as int <= 90 || 48 <= ch as int <= 57 || ch
                    == '-' || ch == '_' || ch == '.';
            &&& is_kept(ch) ==> collapsed(name.push(ch)) == collapsed(name).push(ch)
            &&& !is_kept(ch) && (name.len() == 0 || is_kept(name[name.len() - 1])) ==> collapsed(
                name.push(ch),
            ) == collapsed(name).push('-')
            &&& !is_kept(ch) && name.len() > 0 && !is_kept(name[name.len() - 1]) ==> collapsed(
                name.push(ch),
            ) == collapsed(name)
        }),
{
    assert(name.push(ch).drop_last() =~= name);
}

/// What is left of a name is its kept characters in order, without the `-` and `.`
/// at both ends, and without any other.
pub proof fn sanitizing_cuts_both_ends(name: Seq<char>)
    ensures
        exists|start: int, end: int|
            #![trigger collapsed(name).subrange(start, end)]
            {
                let all = collapsed(name);
                &&& 0 <= start <= end <= all.len()
                &&& sanitized(name) == all.subrange(start, end)
                &&& forall|i: int|
                    0 <= i < start || end <= i < all.len() ==> #[trigger] all[i] == '-' || all[i]
                        == '.'
                &&& start < end ==> {
                    &&& all[start] != '-' && all[start] != '.'
                    &&& all[end - 1] != '-' && all[end - 1] != '.'
                }
            },
{
    let all = collapsed(name);
    let tail = trimmed_start(all);
    lemma_collapsed_is_usable(name);
    lemma_trimmed_start(all);
    lemma_trimmed_end(tail);
    lemma_cut_start(all);
    lemma_cut_end(tail);
    let start = all.len() - tail.len();
    let end = start + sanitized(name).len();
    assert(sanitized(name) =~= all.subrange(start, end));
    assert forall|i: int| 0 <= i < start || end <= i < all.len() implies #[trigger] all[i] == '-'
        || all[i] == '.' by {
        assert(is_usable(all[i]));
        if i < start {
            assert(is_edge(all[i]));
        } else {
            assert(all[i] == tail[i - start]);
            assert(is_edge(tail[i - start]));
        }
    }
    if start < end {
        assert(all[start] == tail.first());
        assert(all[end - 1] == sanitized(name).last());
    }
}

proof fn lemma_cut_start(text: Seq<char>)
    ensures
        forall|i: int|
            0 <= i < text.len() - trimmed_start(text).len() ==> is_edge(#[trigger] text[i]),
    decreases text.len(),
{
    if text.len() > 0 && is_edge(text.first()) {
        let rest = text.drop_first();
        lemma_cut_start(rest);
        assert forall|i: int|
            0 <= i < text.len() - trimmed_start(text).len() implies is_edge(#[trigger] text[i]) by {
            if i > 0 {
                assert(text[i] == rest[i - 1]);
            }
        }
    }
}

proof fn lemma_cut_end(text: Seq<char>)
    ensures
        forall|i: int|
            trimmed_end(text).len() <= i < text.len() ==> is_edge(#[trigger] text[i]),
    decreases text.len(),
{
    if text.len() > 0 && is_edge(text.last()) {
        let rest = text.drop_last();
        lemma_cut_end(rest);
        assert forall|i: int|
            trimmed_end(text).len() <= i < text.len() implies is_edge(#[trigger] text[i]) by {
            if i < rest.len() {
                assert(text[i] == rest[i]);
            }
        }
    }
}

/// A repository is called by the last name in the path of its main working copy
/// where that is text, and `repo` where it is not.
pub proof fn repositories_are_called_by_their_paths(path: Seq<u8>, text: Seq<char>)
    ensures
        file_name(path) matches Some(name) && utf8_text(name) == Some(text) ==> repo_name(path)
            == text,
        !(file_name(path) matches Some(name) && utf8_text(name) is Some) ==> repo_name(path)
            == "repo"@,
{
}

/// The first attempt tries the name itself. A later one tries the name, `-` and the
/// number of the attempt. Either is tried as a name directly in the directory that
/// the worktree goes to.
pub proof fn attempts_try_numbered_names(base: Seq<u8>, requested_name: Seq<char>, attempt: nat)
    requires
        sanitized(requested_name).len() > 0,
        attempt >= 1,
    ensures
        ({
            let name = sanitized(requested_name);
            let tried = if attempt == 1 {
                name
            } else {
                name + "-"@ + decimal(attempt)
            };
            let path = candidate_path(base, name, attempt);
            &&& names_from(path, 0) == names_from(base, 0).push(vstd::utf8::encode_utf8(tried))
            &&& path == base + vstd::utf8::encode_utf8(tried) || path == base + seq![47u8]
                + vstd::utf8::encode_utf8(tried)
        }),
{
    let name = sanitized(requested_name);
    let tried = numbered_name(name, attempt);
    let bytes = vstd::utf8::encode_utf8(tried);
    lemma_numbered_name_is_one_segment(requested_name, attempt);
    joining_keeps_both_paths(base, bytes);
    names_of_one_segment(bytes);
    assert(!seq![47u8].is_prefix_of(bytes)) by {
        if seq![47u8].is_prefix_of(bytes) {
            assert(bytes[0] == bytes.subrange(0, 1)[0] == seq![47u8][0]);
            assert(bytes.contains(bytes[0]));
        }
    }
    assert(names_from(base, 0) + seq![bytes] =~= names_from(base, 0).push(bytes));
}

proof fn lemma_numbered_name_is_one_segment(requested_name: Seq<char>, attempt: nat)
    requires
        sanitized(requested_name).len() > 0,
    ensures
        ({
            let bytes = vstd::utf8::encode_utf8(
                numbered_name(sanitized(requested_name), attempt),
            );
            &&& bytes.len() > 0
            &&& !bytes.contains(SEPARATOR)
            &&& bytes.last() != DOT
        }),
{
    let name = numbered_name(sanitized(requested_name), attempt);
    let bytes = vstd::utf8::encode_utf8(name);
    sanitized_name_is_clean(requested_name);
    lemma_numbered_name_is_clean(sanitized(requested_name), attempt);
    assert(vstd::utf8::is_ascii_chars(name)) by {
        assert forall|i: int| 0 <= i < name.len() implies '\0' <= #[trigger] name[i] <= '\u{7f}' by {
            assert(is_usable(name[i]));
        }
    }
    vstd::utf8::is_ascii_chars_encode_utf8(name);
    assert forall|i: int| 0 <= i < bytes.len() implies bytes[i] != SEPARATOR by {
        assert(is_usable(name[i]));
    }
    assert(bytes.last() == name.last() as u8);
    assert(bytes.last() != DOT) by {
        assert(is_usable(name[name.len() - 1]));
    }
}

/// A path for a worktree needs a root, a main working copy and a usable name, and
/// the first of these that is missing is what is told; where all are there, there
/// is a path.
pub proof fn missing_parts_are_told_in_order(
    root: Option<Seq<u8>>,
    main_working_copy: Option<Seq<u8>>,
    requested_name: Seq<char>,
)
    ensures
        root is None ==> worktree_path_error(root, main_working_copy, requested_name) == Some(
            ErrorModel::HomeNotSet,
        ),
        root is Some && main_working_copy is None ==> worktree_path_error(
            root,
            main_working_copy,
            requested_name,
        ) == Some(ErrorModel::NoWorkingCopy),
        root is Some && main_working_copy is Some ==> worktree_path_error(
            root,
            main_working_copy,
            requested_name,
        ) == (if sanitized(requested_name).len() == 0 {
            Some(ErrorModel::UnusableName(requested_name))
        } else {
            None
        }),
{
}

} // verus!
