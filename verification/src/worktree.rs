//! Discovering and describing linked worktrees.

use vstd::hash_map::StringHashMap;
use vstd::hash_set::StringHashSet;
use vstd::prelude::*;

use crate::oid::{opt_oid, NonZeroOid};
use crate::path::{file_name, FilePath};
use crate::reference::{opt_name, ReferenceName};
use crate::text::{decode_text, utf8_text};

verus! {

/// Information about a linked worktree.
#[derive(Debug, PartialEq, Eq)]
pub struct WorktreeEntry {
    /// Canonicalized worktree path, if available.
    pub path: FilePath,
    /// The OID checked out in the worktree.
    pub head_oid: Option<NonZeroOid>,
    /// The checked-out branch reference, if any.
    pub branch_name: Option<ReferenceName>,
    /// Whether this is the current worktree.
    pub is_current: bool,
    /// Whether this is the main/home worktree for the repository.
    pub is_main: bool,
}

/// A `WorktreeEntry` with what its fields hold.
pub struct EntryModel {
    pub path: Seq<u8>,
    pub head_oid: Option<Seq<char>>,
    pub branch_name: Option<Seq<char>>,
    pub is_current: bool,
    pub is_main: bool,
}

impl View for WorktreeEntry {
    type V = EntryModel;

    open spec fn view(&self) -> EntryModel {
        EntryModel {
            path: self.path@,
            head_oid: opt_oid(self.head_oid),
            branch_name: opt_name(self.branch_name),
            is_current: self.is_current,
            is_main: self.is_main,
        }
    }
}

impl Clone for WorktreeEntry {
    fn clone(&self) -> (copy: WorktreeEntry)
        ensures
            copy@ == self@,
    {
        WorktreeEntry {
            path: self.path.clone(),
            head_oid: clone_oid(&self.head_oid),
            branch_name: clone_name(&self.branch_name),
            is_current: self.is_current,
            is_main: self.is_main,
        }
    }
}

/// A copy of an object ID that may be missing.
pub fn clone_oid(oid: &Option<NonZeroOid>) -> (copy: Option<NonZeroOid>)
    ensures
        opt_oid(copy) == opt_oid(*oid),
{
    match oid {
        Some(oid) => Some(oid.clone()),
        None => None,
    }
}

/// A copy of a reference name that may be missing.
pub fn clone_name(name: &Option<ReferenceName>) -> (copy: Option<ReferenceName>)
    ensures
        opt_name(copy) == opt_name(*name),
{
    match name {
        Some(name) => Some(name.clone()),
        None => None,
    }
}

/// What a worktree at `path` is called: the last name in its path; where that
/// is missing or no text, the whole path; where that is no text either, a
/// placeholder.
pub open spec fn display_name(path: Seq<u8>) -> Seq<char> {
    let name = match file_name(path) {
        Some(name) => utf8_text(name),
        None => None,
    };
    match (name, utf8_text(path)) {
        (Some(name), _) => name,
        (None, Some(path)) => path,
        (None, None) => "<worktree>"@,
    }
}

impl WorktreeEntry {
    /// Returns `true` if the worktree is detached.
    pub fn is_detached(&self) -> (detached: bool)
        ensures
            detached == (self@.branch_name is None),
    {
        self.branch_name.is_none()
    }

    /// Get a stable display name for the worktree.
    pub fn display_name(&self) -> (name: String)
        ensures
            name@ == display_name(self@.path),
    {
        if let Some(name) = self.path.file_name() {
            if let Some(name) = decode_text(&name) {
                return name;
            }
        }
        match self.path.to_text() {
            Some(path) => path,
            None => "<worktree>".to_owned(),
        }
    }
}

/// The models of entries, in turn.
pub open spec fn entry_models(entries: Seq<WorktreeEntry>) -> Seq<EntryModel> {
    entries.map_values(|entry: WorktreeEntry| entry@)
}

/// The models of borrowed entries, in turn.
pub open spec fn borrowed_models(entries: Seq<&WorktreeEntry>) -> Seq<EntryModel> {
    entries.map_values(|entry: &WorktreeEntry| entry@)
}

/// The model of an entry that may be missing.
pub open spec fn opt_entry(entry: Option<&WorktreeEntry>) -> Option<EntryModel> {
    match entry {
        Some(entry) => Some(entry@),
        None => None,
    }
}

/// The first entry that meets a condition.
pub open spec fn first_where(
    entries: Seq<EntryModel>,
    condition: spec_fn(EntryModel) -> bool,
) -> Option<EntryModel>
    decreases entries.len(),
{
    if entries.len() == 0 {
        None
    } else if condition(entries.first()) {
        Some(entries.first())
    } else {
        first_where(entries.drop_first(), condition)
    }
}

/// The last entry that meets a condition.
pub open spec fn last_where(
    entries: Seq<EntryModel>,
    condition: spec_fn(EntryModel) -> bool,
) -> Option<EntryModel>
    decreases entries.len(),
{
    if entries.len() == 0 {
        None
    } else if condition(entries.last()) {
        Some(entries.last())
    } else {
        last_where(entries.drop_last(), condition)
    }
}

/// The first entry that meets a condition is an entry and meets it, and there is
/// one unless no entry does.
pub proof fn lemma_first_where(entries: Seq<EntryModel>, condition: spec_fn(EntryModel) -> bool)
    ensures
        match first_where(entries, condition) {
            Some(entry) => condition(entry) && entries.contains(entry),
            None => forall|i: int| 0 <= i < entries.len() ==> !condition(#[trigger] entries[i]),
        },
    decreases entries.len(),
{
    if entries.len() > 0 {
        if condition(entries.first()) {
            assert(entries[0] == entries.first());
        } else {
            let rest = entries.drop_first();
            lemma_first_where(rest, condition);
            match first_where(rest, condition) {
                Some(entry) => {
                    let i = choose|i: int| 0 <= i < rest.len() && rest[i] == entry;
                    assert(entries[i + 1] == entry);
                },
                None => {
                    assert forall|i: int| 0 <= i < entries.len() implies !condition(
                        #[trigger] entries[i],
                    ) by {
                        if i > 0 {
                            assert(entries[i] == rest[i - 1]);
                        }
                    }
                },
            }
        }
    }
}

/// An entry that meets a condition, with none before it that does, is the first.
pub proof fn lemma_first_is_found(
    entries: Seq<EntryModel>,
    condition: spec_fn(EntryModel) -> bool,
    owner: int,
)
    requires
        0 <= owner < entries.len(),
        condition(entries[owner]),
        forall|i: int| 0 <= i < owner ==> !condition(#[trigger] entries[i]),
    ensures
        first_where(entries, condition) == Some(entries[owner]),
    decreases entries.len(),
{
    if owner > 0 {
        let rest = entries.drop_first();
        assert(!condition(entries[0]));
        assert(rest[owner - 1] == entries[owner]);
        assert forall|i: int| 0 <= i < owner - 1 implies !condition(#[trigger] rest[i]) by {
            assert(rest[i] == entries[i + 1]);
        }
        lemma_first_is_found(rest, condition, owner - 1);
    }
}

/// Whether an entry has the given commit checked out.
pub open spec fn is_at(oid: Seq<char>) -> spec_fn(EntryModel) -> bool {
    |entry: EntryModel| entry.head_oid == Some(oid)
}

/// Whether an entry has the given branch checked out.
pub open spec fn is_on(branch: Seq<char>) -> spec_fn(EntryModel) -> bool {
    |entry: EntryModel| entry.branch_name == Some(branch)
}

/// Whether an entry is the current worktree.
pub open spec fn is_current() -> spec_fn(EntryModel) -> bool {
    |entry: EntryModel| entry.is_current
}

/// Whether some worktree has the given commit checked out.
pub open spec fn is_head(entries: Seq<EntryModel>, oid: Seq<char>) -> bool {
    exists|i: int| 0 <= i < entries.len() && (#[trigger] entries[i]).head_oid == Some(oid)
}

/// Whether some worktree has the given branch checked out.
pub open spec fn is_active_branch(entries: Seq<EntryModel>, branch: Seq<char>) -> bool {
    exists|i: int| 0 <= i < entries.len() && (#[trigger] entries[i]).branch_name == Some(branch)
}

/// Whether some worktree without a branch has the given commit checked out.
pub open spec fn is_detached_head(entries: Seq<EntryModel>, oid: Seq<char>) -> bool {
    exists|i: int|
        0 <= i < entries.len() && (#[trigger] entries[i]).head_oid == Some(oid)
            && entries[i].branch_name is None
}

/// A snapshot of all linked worktrees for the current repository.
#[derive(Debug)]
pub struct WorktreeSnapshot {
    /// All linked worktrees.
    pub entries: Vec<WorktreeEntry>,
}

impl View for WorktreeSnapshot {
    type V = Seq<EntryModel>;

    open spec fn view(&self) -> Seq<EntryModel> {
        entry_models(self.entries@)
    }
}

impl Clone for WorktreeSnapshot {
    fn clone(&self) -> (copy: WorktreeSnapshot)
        ensures
            copy@ == self@,
    {
        let mut entries: Vec<WorktreeEntry> = Vec::new();
        let mut i: usize = 0;
        while i < self.entries.len()
            invariant
                i <= self.entries.len(),
                entry_models(entries@) == self@.take(i as int),
            decreases self.entries.len() - i,
        {
            let ghost before = entries@;
            let entry = self.entries[i].clone();
            entries.push(entry);
            assert(entry_models(entries@) =~= entry_models(before).push(entry@));
            assert(self@.take(i + 1) =~= self@.take(i as int).push(self@[i as int]));
            i = i + 1;
        }
        assert(self@.take(i as int) =~= self@);
        WorktreeSnapshot { entries }
    }
}

impl Default for WorktreeSnapshot {
    fn default() -> (snapshot: WorktreeSnapshot)
        ensures
            snapshot@ == Seq::<EntryModel>::empty(),
    {
        let snapshot = WorktreeSnapshot { entries: Vec::new() };
        assert(snapshot@ =~= Seq::empty());
        snapshot
    }
}

impl WorktreeSnapshot {
    /// Build a map from commit OID to worktrees which currently have it checked
    /// out. The digits of the OID are the key.
    pub fn oid_to_worktrees(&self) -> (map: StringHashMap<Vec<&WorktreeEntry>>)
        ensures
            forall|oid: Seq<char>| #[trigger] map@.contains_key(oid) <==> is_head(self@, oid),
            forall|oid: Seq<char>| #[trigger]
                map@.contains_key(oid) ==> borrowed_models(map@[oid]@) == self@.filter(is_at(oid)),
    {
        let mut map: StringHashMap<Vec<&WorktreeEntry>> = StringHashMap::new();
        let mut i: usize = 0;
        while i < self.entries.len()
            invariant
                i <= self.entries.len(),
                forall|oid: Seq<char>| #[trigger]
                    map@.contains_key(oid) <==> is_head(self@.take(i as int), oid),
                forall|oid: Seq<char>| #[trigger]
                    map@.contains_key(oid) ==> borrowed_models(map@[oid]@) == self@.filter(
                        is_at(oid),
                    ),
            decreases self.entries.len() - i,
        {
            assert(self@.take(i + 1) =~= self@.take(i as int).push(self@[i as int]));
            assert forall|oid: Seq<char>| is_head(self@.take(i + 1), oid) <==> is_head(
                self@.take(i as int),
                oid,
            ) || self@[i as int].head_oid == Some(oid) by {
                lemma_is_head_push(self@.take(i as int), self@[i as int], oid);
            }
            if let Some(oid) = &self.entries[i].head_oid {
                if !map.contains_key(oid.as_str()) {
                    let worktrees = self.find_by_head_oid(oid);
                    map.insert(oid.as_str().to_owned(), worktrees);
                }
            }
            i = i + 1;
        }
        assert(self@.take(i as int) =~= self@);
        map
    }

    /// Build a map from branch reference name to the owning checked-out
    /// worktree; where several own it, to the last of them.
    pub fn branch_to_worktree(&self) -> (map: StringHashMap<&WorktreeEntry>)
        ensures
            forall|branch: Seq<char>| #[trigger]
                map@.contains_key(branch) <==> is_active_branch(self@, branch),
            forall|branch: Seq<char>| #[trigger]
                map@.contains_key(branch) ==> last_where(self@, is_on(branch)) == Some(
                    map@[branch]@,
                ),
    {
        let mut map: StringHashMap<&WorktreeEntry> = StringHashMap::new();
        let mut i: usize = 0;
        while i < self.entries.len()
            invariant
                i <= self.entries.len(),
                forall|branch: Seq<char>| #[trigger]
                    map@.contains_key(branch) <==> is_active_branch(self@.take(i as int), branch),
                forall|branch: Seq<char>| #[trigger]
                    map@.contains_key(branch) ==> last_where(self@.take(i as int), is_on(branch))
                        == Some(map@[branch]@),
            decreases self.entries.len() - i,
        {
            assert(self@.take(i + 1) =~= self@.take(i as int).push(self@[i as int]));
            assert(self@.take(i + 1).drop_last() =~= self@.take(i as int));
            assert forall|branch: Seq<char>| is_active_branch(self@.take(i + 1), branch)
                <==> is_active_branch(self@.take(i as int), branch) || self@[i as int].branch_name
                == Some(branch) by {
                lemma_is_active_branch_push(self@.take(i as int), self@[i as int], branch);
            }
            if let Some(branch) = &self.entries[i].branch_name {
                map.insert(branch.name.clone(), &self.entries[i]);
            }
            i = i + 1;
        }
        assert(self@.take(i as int) =~= self@);
        map
    }

    /// Return the current worktree, if it could be identified.
    pub fn current(&self) -> (entry: Option<&WorktreeEntry>)
        ensures
            opt_entry(entry) == first_where(self@, is_current()),
    {
        let mut i: usize = 0;
        assert(self@.skip(0) =~= self@);
        while i < self.entries.len()
            invariant
                i <= self.entries.len(),
                first_where(self@.skip(i as int), is_current()) == first_where(self@, is_current()),
            decreases self.entries.len() - i,
        {
            assert(self@.skip(i as int).drop_first() =~= self@.skip(i + 1));
            if self.entries[i].is_current {
                return Some(&self.entries[i]);
            }
            i = i + 1;
        }
        None
    }

    /// Return the worktree which owns the provided branch.
    pub fn find_by_branch(&self, branch_name: &ReferenceName) -> (entry: Option<&WorktreeEntry>)
        ensures
            opt_entry(entry) == first_where(self@, is_on(branch_name@)),
    {
        let mut i: usize = 0;
        assert(self@.skip(0) =~= self@);
        while i < self.entries.len()
            invariant
                i <= self.entries.len(),
                first_where(self@.skip(i as int), is_on(branch_name@)) == first_where(
                    self@,
                    is_on(branch_name@),
                ),
            decreases self.entries.len() - i,
        {
            assert(self@.skip(i as int).drop_first() =~= self@.skip(i + 1));
            if let Some(branch) = &self.entries[i].branch_name {
                if branch.is_same(branch_name) {
                    return Some(&self.entries[i]);
                }
            }
            i = i + 1;
        }
        None
    }

    /// Return all worktrees checked out at the provided OID.
    pub fn find_by_head_oid(&self, oid: &NonZeroOid) -> (worktrees: Vec<&WorktreeEntry>)
        ensures
            borrowed_models(worktrees@) == self@.filter(is_at(oid@)),
    {
        let mut worktrees: Vec<&WorktreeEntry> = Vec::new();
        let mut i: usize = 0;
        assert(borrowed_models(worktrees@) =~= self@.take(0).filter(is_at(oid@))) by {
            reveal(Seq::filter);
        }
        while i < self.entries.len()
            invariant
                i <= self.entries.len(),
                borrowed_models(worktrees@) == self@.take(i as int).filter(is_at(oid@)),
            decreases self.entries.len() - i,
        {
            let ghost before = worktrees@;
            proof {
                reveal(Seq::filter);
                assert(self@.take(i + 1).drop_last() =~= self@.take(i as int));
            }
            if let Some(head_oid) = &self.entries[i].head_oid {
                if head_oid.is_same(oid) {
                    worktrees.push(&self.entries[i]);
                    assert(borrowed_models(worktrees@) =~= borrowed_models(before).push(
                        self@[i as int],
                    ));
                }
            }
            i = i + 1;
        }
        assert(self@.take(i as int) =~= self@);
        worktrees
    }

    /// Return all active branch names.
    pub fn active_branch_names(&self) -> (names: StringHashSet)
        ensures
            forall|branch: Seq<char>| #[trigger]
                names@.contains(branch) <==> is_active_branch(self@, branch),
    {
        let mut names = StringHashSet::new();
        let mut i: usize = 0;
        while i < self.entries.len()
            invariant
                i <= self.entries.len(),
                forall|branch: Seq<char>| #[trigger]
                    names@.contains(branch) <==> is_active_branch(self@.take(i as int), branch),
            decreases self.entries.len() - i,
        {
            assert(self@.take(i + 1) =~= self@.take(i as int).push(self@[i as int]));
            assert forall|branch: Seq<char>| is_active_branch(self@.take(i + 1), branch)
                <==> is_active_branch(self@.take(i as int), branch) || self@[i as int].branch_name
                == Some(branch) by {
                lemma_is_active_branch_push(self@.take(i as int), self@[i as int], branch);
            }
            if let Some(branch) = &self.entries[i].branch_name {
                names.insert(branch.name.clone());
            }
            i = i + 1;
        }
        assert(self@.take(i as int) =~= self@);
        names
    }

    /// Return all active detached head commits, by the digits of their OIDs.
    pub fn active_detached_head_oids(&self) -> (oids: StringHashSet)
        ensures
            forall|oid: Seq<char>| #[trigger]
                oids@.contains(oid) <==> is_detached_head(self@, oid),
    {
        let mut oids = StringHashSet::new();
        let mut i: usize = 0;
        while i < self.entries.len()
            invariant
                i <= self.entries.len(),
                forall|oid: Seq<char>| #[trigger]
                    oids@.contains(oid) <==> is_detached_head(self@.take(i as int), oid),
            decreases self.entries.len() - i,
        {
            assert(self@.take(i + 1) =~= self@.take(i as int).push(self@[i as int]));
            assert forall|oid: Seq<char>| is_detached_head(self@.take(i + 1), oid)
                <==> is_detached_head(self@.take(i as int), oid) || (self@[i as int].head_oid
                == Some(oid) && self@[i as int].branch_name is None) by {
                lemma_is_detached_head_push(self@.take(i as int), self@[i as int], oid);
            }
            if self.entries[i].is_detached() {
                if let Some(oid) = &self.entries[i].head_oid {
                    oids.insert(oid.as_str().to_owned());
                }
            }
            i = i + 1;
        }
        assert(self@.take(i as int) =~= self@);
        oids
    }
}

proof fn lemma_is_head_push(entries: Seq<EntryModel>, entry: EntryModel, oid: Seq<char>)
    ensures
        is_head(entries.push(entry), oid) <==> is_head(entries, oid) || entry.head_oid == Some(oid),
{
    let all = entries.push(entry);
    assert(all[entries.len() as int] == entry);
    if is_head(entries, oid) {
        let i = choose|i: int|
            0 <= i < entries.len() && (#[trigger] entries[i]).head_oid == Some(oid);
        assert(all[i] == entries[i]);
    }
    if is_head(all, oid) {
        let i = choose|i: int| 0 <= i < all.len() && (#[trigger] all[i]).head_oid == Some(oid);
        assert(i < entries.len() ==> all[i] == entries[i]);
    }
}

proof fn lemma_is_active_branch_push(
    entries: Seq<EntryModel>,
    entry: EntryModel,
    branch: Seq<char>,
)
    ensures
        is_active_branch(entries.push(entry), branch) <==> is_active_branch(entries, branch)
            || entry.branch_name == Some(branch),
{
    let all = entries.push(entry);
    assert(all[entries.len() as int] == entry);
    if is_active_branch(entries, branch) {
        let i = choose|i: int|
            0 <= i < entries.len() && (#[trigger] entries[i]).branch_name == Some(branch);
        assert(all[i] == entries[i]);
    }
    if is_active_branch(all, branch) {
        let i = choose|i: int|
            0 <= i < all.len() && (#[trigger] all[i]).branch_name == Some(branch);
        assert(i < entries.len() ==> all[i] == entries[i]);
    }
}

proof fn lemma_is_detached_head_push(entries: Seq<EntryModel>, entry: EntryModel, oid: Seq<char>)
    ensures
        is_detached_head(entries.push(entry), oid) <==> is_detached_head(entries, oid) || (
        entry.head_oid == Some(oid) && entry.branch_name is None),
{
    let all = entries.push(entry);
    assert(all[entries.len() as int] == entry);
    if is_detached_head(entries, oid) {
        let i = choose|i: int|
            0 <= i < entries.len() && (#[trigger] entries[i]).head_oid == Some(oid)
                && entries[i].branch_name is None;
        assert(all[i] == entries[i]);
    }
    if is_detached_head(all, oid) {
        let i = choose|i: int|
            0 <= i < all.len() && (#[trigger] all[i]).head_oid == Some(oid)
                && all[i].branch_name is None;
        assert(i < entries.len() ==> all[i] == entries[i]);
    }
}

/// A branch is found where some worktree is on it, and nowhere else, whichever
/// end the search starts from.
pub proof fn branch_is_found_where_active(entries: Seq<EntryModel>, branch: Seq<char>)
    ensures
        first_where(entries, is_on(branch)) is Some <==> is_active_branch(entries, branch),
        last_where(entries, is_on(branch)) is Some <==> is_active_branch(entries, branch),
    decreases entries.len(),
{
    lemma_first_where(entries, is_on(branch));
    match first_where(entries, is_on(branch)) {
        Some(entry) => {
            let i = choose|i: int| 0 <= i < entries.len() && entries[i] == entry;
            assert(entries[i].branch_name == Some(branch));
        },
        None => {
            assert forall|i: int| 0 <= i < entries.len() implies (#[trigger] entries[i]).branch_name
                != Some(branch) by {
                assert(!is_on(branch)(entries[i]));
            }
        },
    }
    if entries.len() > 0 {
        branch_is_found_where_active(entries.drop_last(), branch);
        lemma_is_active_branch_push(entries.drop_last(), entries.last(), branch);
        assert(entries.drop_last().push(entries.last()) =~= entries);
    }
}

/// Where one worktree alone is on a branch, that worktree is what every way to
/// look the branch up gives.
pub proof fn sole_owner_of_branch_is_found(entries: Seq<EntryModel>, branch: Seq<char>, owner: int)
    requires
        0 <= owner < entries.len(),
        forall|i: int|
            0 <= i < entries.len() ==> ((#[trigger] entries[i]).branch_name == Some(branch) <==> i
                == owner),
    ensures
        first_where(entries, is_on(branch)) == Some(entries[owner]),
        last_where(entries, is_on(branch)) == Some(entries[owner]),
{
    assert(entries[owner].branch_name == Some(branch));
    assert(is_active_branch(entries, branch));
    branch_is_found_where_active(entries, branch);
    lemma_first_where(entries, is_on(branch));
    lemma_last_where(entries, is_on(branch));
    let first = first_where(entries, is_on(branch))->0;
    let i = choose|i: int| 0 <= i < entries.len() && entries[i] == first;
    assert(entries[i].branch_name == Some(branch));
    let last = last_where(entries, is_on(branch))->0;
    let j = choose|j: int| 0 <= j < entries.len() && entries[j] == last;
    assert(entries[j].branch_name == Some(branch));
}

proof fn lemma_last_where(entries: Seq<EntryModel>, condition: spec_fn(EntryModel) -> bool)
    ensures
        last_where(entries, condition) matches Some(entry) ==> condition(entry)
            && entries.contains(entry),
    decreases entries.len(),
{
    if entries.len() > 0 {
        if condition(entries.last()) {
            assert(entries[entries.len() - 1] == entries.last());
        } else {
            let rest = entries.drop_last();
            lemma_last_where(rest, condition);
            if let Some(entry) = last_where(rest, condition) {
                let i = choose|i: int| 0 <= i < rest.len() && rest[i] == entry;
                assert(entries[i] == entry);
            }
        }
    }
}

/// Some worktree is found at a commit where one has it checked out, and nowhere
/// else; and every worktree that is found there does have it checked out.
pub proof fn worktrees_are_found_at_their_heads(entries: Seq<EntryModel>, oid: Seq<char>)
    ensures
        entries.filter(is_at(oid)).len() > 0 <==> is_head(entries, oid),
        forall|i: int|
            0 <= i < entries.filter(is_at(oid)).len() ==> (#[trigger] entries.filter(
                is_at(oid),
            )[i]).head_oid == Some(oid),
    decreases entries.len(),
{
    reveal(Seq::filter);
    if entries.len() > 0 {
        worktrees_are_found_at_their_heads(entries.drop_last(), oid);
        lemma_is_head_push(entries.drop_last(), entries.last(), oid);
        assert(entries.drop_last().push(entries.last()) =~= entries);
    }
}

/// Every worktree with a commit checked out is active: it is on an active branch,
/// or its commit is an active detached head.
pub proof fn every_worktree_is_active(entries: Seq<EntryModel>, i: int)
    requires
        0 <= i < entries.len(),
    ensures
        entries[i].branch_name matches Some(branch) ==> is_active_branch(entries, branch),
        entries[i].branch_name is None ==> (entries[i].head_oid matches Some(oid)
            ==> is_detached_head(entries, oid)),
{
}

/// A worktree is called by the last name in its path, where that is text; else by
/// its whole path, where that is text; and else by a placeholder.
pub proof fn worktrees_are_called_by_their_paths(path: Seq<u8>, text: Seq<char>)
    ensures
        file_name(path) matches Some(name) && utf8_text(name) == Some(text) ==> display_name(path)
            == text,
        !(file_name(path) matches Some(name) && utf8_text(name) is Some) ==> {
            &&& utf8_text(path) == Some(text) ==> display_name(path) == text
            &&& utf8_text(path) is None ==> display_name(path) == "<worktree>"@
        },
{
}

proof fn lemma_first_where_index(
    entries: Seq<EntryModel>,
    condition: spec_fn(EntryModel) -> bool,
) -> (found: int)
    ensures
        first_where(entries, condition) matches Some(entry) ==> {
            &&& 0 <= found < entries.len()
            &&& entries[found] == entry
            &&& condition(entry)
            &&& forall|j: int| 0 <= j < found ==> !condition(#[trigger] entries[j])
        },
    decreases entries.len(),
{
    if entries.len() == 0 || condition(entries.first()) {
        0
    } else {
        let rest = entries.drop_first();
        let found = lemma_first_where_index(rest, condition);
        if first_where(rest, condition) is Some {
            assert forall|j: int| 0 <= j < found + 1 implies !condition(#[trigger] entries[j]) by {
                if j > 0 {
                    assert(entries[j] == rest[j - 1]);
                }
            }
        }
        found + 1
    }
}

proof fn lemma_last_where_index(
    entries: Seq<EntryModel>,
    condition: spec_fn(EntryModel) -> bool,
) -> (found: int)
    ensures
        last_where(entries, condition) matches Some(entry) ==> {
            &&& 0 <= found < entries.len()
            &&& entries[found] == entry
            &&& condition(entry)
            &&& forall|j: int| found < j < entries.len() ==> !condition(#[trigger] entries[j])
        },
        last_where(entries, condition) is None ==> forall|j: int|
            0 <= j < entries.len() ==> !condition(#[trigger] entries[j]),
    decreases entries.len(),
{
    if entries.len() == 0 {
        0
    } else if condition(entries.last()) {
        entries.len() - 1
    } else {
        let rest = entries.drop_last();
        let found = lemma_last_where_index(rest, condition);
        assert forall|j: int| 0 <= j < entries.len() && condition(
            #[trigger] entries[j],
        ) implies j < entries.len() - 1 && rest[j] == entries[j] by {
            if j == entries.len() - 1 {
                assert(entries[j] == entries.last());
            }
        }
        found
    }
}

/// The search for the owner of a branch gives a worktree that is on exactly that
/// branch, with none on it before; and nothing only where none is on it.
pub proof fn branch_owner_is_the_first_on_it(entries: Seq<EntryModel>, branch: Seq<char>)
    ensures
        match first_where(entries, is_on(branch)) {
            Some(entry) => entry.branch_name == Some(branch) && exists|i: int|
                0 <= i < entries.len() && #[trigger] entries[i] == entry && forall|j: int|
                    0 <= j < i ==> (#[trigger] entries[j]).branch_name != Some(branch),
            None => forall|i: int|
                0 <= i < entries.len() ==> (#[trigger] entries[i]).branch_name != Some(branch),
        },
{
    let found = lemma_first_where_index(entries, is_on(branch));
    lemma_first_where(entries, is_on(branch));
    if first_where(entries, is_on(branch)) is Some {
        assert forall|j: int| 0 <= j < found implies (#[trigger] entries[j]).branch_name != Some(
            branch,
        ) by {
            assert(!is_on(branch)(entries[j]));
        }
        assert(entries[found] == first_where(entries, is_on(branch))->0);
    } else {
        assert forall|i: int| 0 <= i < entries.len() implies (#[trigger] entries[i]).branch_name
            != Some(branch) by {
            assert(!is_on(branch)(entries[i]));
        }
    }
}

/// The map from branches gives a worktree that is on exactly that branch, with
/// none on it behind; and nothing only where none is on it.
pub proof fn mapped_branch_owner_is_the_last_on_it(entries: Seq<EntryModel>, branch: Seq<char>)
    ensures
        match last_where(entries, is_on(branch)) {
            Some(entry) => entry.branch_name == Some(branch) && exists|i: int|
                0 <= i < entries.len() && #[trigger] entries[i] == entry && forall|j: int|
                    i < j < entries.len() ==> (#[trigger] entries[j]).branch_name != Some(branch),
            None => forall|i: int|
                0 <= i < entries.len() ==> (#[trigger] entries[i]).branch_name != Some(branch),
        },
{
    let found = lemma_last_where_index(entries, is_on(branch));
    assert forall|i: int|
        0 <= i < entries.len() && !is_on(branch)(#[trigger] entries[i]) implies entries[i].branch_name
        != Some(branch) by {}
    if last_where(entries, is_on(branch)) is Some {
        assert forall|j: int| found < j < entries.len() implies (
        #[trigger] entries[j]).branch_name != Some(branch) by {
            assert(!is_on(branch)(entries[j]));
        }
        assert(entries[found] == last_where(entries, is_on(branch))->0);
    }
}

/// The current worktree is the first that is marked as current, and there is none
/// only where none is marked so.
pub proof fn current_worktree_is_marked_so(entries: Seq<EntryModel>)
    ensures
        match first_where(entries, is_current()) {
            Some(entry) => entry.is_current && exists|i: int|
                0 <= i < entries.len() && #[trigger] entries[i] == entry && forall|j: int|
                    0 <= j < i ==> !(#[trigger] entries[j]).is_current,
            None => forall|i: int| 0 <= i < entries.len() ==> !(#[trigger] entries[i]).is_current,
        },
{
    let found = lemma_first_where_index(entries, is_current());
    lemma_first_where(entries, is_current());
    if first_where(entries, is_current()) is Some {
        assert forall|j: int| 0 <= j < found implies !(#[trigger] entries[j]).is_current by {
            assert(!is_current()(entries[j]));
        }
        assert(entries[found] == first_where(entries, is_current())->0);
    } else {
        assert forall|i: int| 0 <= i < entries.len() implies !(#[trigger] entries[i]).is_current by {
            assert(!is_current()(entries[i]));
        }
    }
}

/// Of the worktrees at a commit none is lost and none is added: one more worktree
/// is found behind the others where it has exactly that commit checked out.
pub proof fn worktrees_at_a_commit_are_found_in_order(
    entries: Seq<EntryModel>,
    entry: EntryModel,
    oid: Seq<char>,
)
    ensures
        Seq::<EntryModel>::empty().filter(is_at(oid)).len() == 0,
        entries.push(entry).filter(is_at(oid)) == (if entry.head_oid == Some(oid) {
            entries.filter(is_at(oid)).push(entry)
        } else {
            entries.filter(is_at(oid))
        }),
{
    reveal(Seq::filter);
    assert(entries.push(entry).drop_last() =~= entries);
}

/// What is active is what some worktree has checked out: a branch where one is on
/// it, a commit where one has it, a detached head where one has it without a
/// branch.
pub proof fn active_is_what_is_checked_out(entries: Seq<EntryModel>, text: Seq<char>)
    ensures
        is_active_branch(entries, text) <==> exists|i: int|
            0 <= i < entries.len() && (#[trigger] entries[i]).branch_name == Some(text),
        is_head(entries, text) <==> exists|i: int|
            0 <= i < entries.len() && (#[trigger] entries[i]).head_oid == Some(text),
        is_detached_head(entries, text) <==> exists|i: int|
            0 <= i < entries.len() && (#[trigger] entries[i]).head_oid == Some(text)
                && entries[i].branch_name is None,
{
}

} // verus!
