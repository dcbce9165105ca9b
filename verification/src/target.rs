//! What the user points to: branches, commits and worktrees.

use vstd::prelude::*;

use crate::error::{ErrorModel, WorktreeError};
use crate::listing::{best_path, canonicalize_best_effort};
use crate::oid::{oid_texts, NonZeroOid};
use crate::path::{opt_path, same_path, FilePath};
use crate::reference::{opt_name, ReferenceName};
use crate::repo::clone_path;
use crate::text::{same_text, shown_text};
use crate::worktree::{
    display_name, first_where, is_current, is_on, lemma_first_is_found, lemma_first_where, EntryModel,
    WorktreeEntry, WorktreeSnapshot,
};

verus! {

/// What came of looking for a local branch.
#[derive(Debug)]
pub enum BranchLookup {
    /// There is a local branch, with this reference.
    Found(ReferenceName),
    /// There is no such branch.
    NotFound,
    /// No branch can be called so.
    InvalidName,
    /// The repository could not be asked, for the given reason.
    Failed(String),
}

/// A `BranchLookup` with the characters of its texts.
pub enum LookupModel {
    Found(Seq<char>),
    NotFound,
    InvalidName,
    Failed(Seq<char>),
}

impl View for BranchLookup {
    type V = LookupModel;

    open spec fn view(&self) -> LookupModel {
        match self {
            BranchLookup::Found(name) => LookupModel::Found(name@),
            BranchLookup::NotFound => LookupModel::NotFound,
            BranchLookup::InvalidName => LookupModel::InvalidName,
            BranchLookup::Failed(reason) => LookupModel::Failed(reason@),
        }
    }
}

/// The branch that was looked for. A name that no branch can have is the name of
/// no branch.
pub open spec fn branch_found(lookup: LookupModel) -> Result<Option<Seq<char>>, ErrorModel> {
    match lookup {
        LookupModel::Found(name) => Ok(Some(name)),
        LookupModel::NotFound => Ok(None),
        LookupModel::InvalidName => Ok(None),
        LookupModel::Failed(reason) => Err(ErrorModel::FindingBranch(reason)),
    }
}

/// The local branch that was looked for, if there is one.
pub fn find_local_branch(lookup: &BranchLookup) -> (result: Result<
    Option<ReferenceName>,
    WorktreeError,
>)
    ensures
        match result {
            Ok(branch) => branch_found(lookup@) == Ok::<Option<Seq<char>>, ErrorModel>(
                opt_name(branch),
            ),
            Err(error) => branch_found(lookup@) == Err::<Option<Seq<char>>, ErrorModel>(error@),
        },
{
    match lookup {
        BranchLookup::Found(name) => Ok(Some(name.clone())),
        BranchLookup::NotFound => Ok(None),
        BranchLookup::InvalidName => Ok(None),
        BranchLookup::Failed(reason) => Err(WorktreeError::FindingBranch(reason.clone())),
    }
}

/// The one commit that a target stands for, given the heads of the commits that
/// it resolved to.
pub open spec fn target_commit(target: Seq<char>, heads: Seq<Seq<char>>) -> Result<
    Seq<char>,
    ErrorModel,
> {
    if heads.len() == 1 {
        Ok(heads[0])
    } else if heads.len() == 0 {
        Err(ErrorModel::NoCommits(target))
    } else {
        Err(ErrorModel::MultipleHeads(target))
    }
}

/// The one commit that `target` stands for, given the heads of the commits that
/// it resolved to.
pub fn resolve_target_oid(target: &str, heads: &Vec<NonZeroOid>) -> (result: Result<
    NonZeroOid,
    WorktreeError,
>)
    ensures
        match result {
            Ok(oid) => target_commit(target@, oid_texts(heads@)) == Ok::<Seq<char>, ErrorModel>(
                oid@,
            ),
            Err(error) => target_commit(target@, oid_texts(heads@)) == Err::<
                Seq<char>,
                ErrorModel,
            >(error@),
        },
{
    if heads.len() == 1 {
        Ok(heads[0].clone())
    } else if heads.len() == 0 {
        Err(WorktreeError::NoCommits(target.to_owned()))
    } else {
        Err(WorktreeError::MultipleHeads(target.to_owned()))
    }
}

/// The worktree that the user names, and what is known of the name.
#[derive(Debug)]
pub struct NamedWorktree {
    /// The name as the user gave it.
    pub name: String,
    /// What it was canonicalized to as a path; `None` where that failed.
    pub canonical: Option<FilePath>,
    /// What came of looking for a local branch of that name.
    pub branch: BranchLookup,
}

/// Whether an entry is at `path`, or called or located `name`.
pub open spec fn is_called(name: Seq<char>, path: Seq<u8>) -> spec_fn(EntryModel) -> bool {
    |entry: EntryModel|
        same_path(entry.path, path) || display_name(entry.path) == name || shown_text(entry.path)
            == name
}

/// The worktree that the user names: the first that is at that path or called or
/// located so, and else the first with the branch of that name.
pub open spec fn named_entry(entries: Seq<EntryModel>, named: NamedWorktree) -> Result<
    EntryModel,
    ErrorModel,
> {
    let path = best_path(vstd::utf8::encode_utf8(named.name@), opt_path(named.canonical));
    match first_where(entries, is_called(named.name@, path)) {
        Some(entry) => Ok(entry),
        None => match branch_found(named.branch@) {
            Err(error) => Err(error),
            Ok(None) => Err(ErrorModel::UnresolvedWorktree(named.name@)),
            Ok(Some(branch)) => match first_where(entries, is_on(branch)) {
                Some(entry) => Ok(entry),
                None => Err(ErrorModel::UnresolvedWorktree(named.name@)),
            },
        },
    }
}

/// The worktree to remove: the named one or, where none is named, the current
/// one.
pub open spec fn rm_entry(entries: Seq<EntryModel>, target: Option<NamedWorktree>) -> Result<
    EntryModel,
    ErrorModel,
> {
    match target {
        Some(named) => named_entry(entries, named),
        None => match first_where(entries, is_current()) {
            Some(entry) => Ok(entry),
            None => Err(ErrorModel::NoCurrentWorktree),
        },
    }
}

/// The worktree to remove.
pub fn resolve_rm_target(snapshot: &WorktreeSnapshot, target: &Option<NamedWorktree>) -> (result:
    Result<WorktreeEntry, WorktreeError>)
    ensures
        match result {
            Ok(entry) => rm_entry(snapshot@, *target) == Ok::<EntryModel, ErrorModel>(entry@),
            Err(error) => rm_entry(snapshot@, *target) == Err::<EntryModel, ErrorModel>(error@),
        },
{
    let named = match target {
        Some(named) => named,
        None => {
            return match snapshot.current() {
                Some(entry) => Ok(entry.clone()),
                None => Err(WorktreeError::NoCurrentWorktree),
            };
        },
    };
    let path = canonicalize_best_effort(
        FilePath::from_text(named.name.as_str()),
        clone_path(&named.canonical),
    );
    let ghost condition = is_called(named.name@, path@);
    let mut i: usize = 0;
    assert(snapshot@.skip(0) =~= snapshot@);
    while i < snapshot.entries.len()
        invariant
            *target == Some(*named),
            path@ == best_path(vstd::utf8::encode_utf8(named.name@), opt_path(named.canonical)),
            condition == is_called(named.name@, path@),
            i <= snapshot.entries.len(),
            first_where(snapshot@.skip(i as int), condition) == first_where(snapshot@, condition),
        decreases snapshot.entries.len() - i,
    {
        assert(snapshot@.skip(i as int).drop_first() =~= snapshot@.skip(i + 1));
        let entry = &snapshot.entries[i];
        if entry.path.is_same(&path) || same_text(
            entry.display_name().as_str(),
            named.name.as_str(),
        ) || same_text(entry.path.to_text_lossy().as_str(), named.name.as_str()) {
            return Ok(entry.clone());
        }
        i = i + 1;
    }
    match find_local_branch(&named.branch) {
        Err(error) => Err(error),
        Ok(None) => Err(WorktreeError::UnresolvedWorktree(named.name.clone())),
        Ok(Some(branch)) => match snapshot.find_by_branch(&branch) {
            Some(entry) => Ok(entry.clone()),
            None => Err(WorktreeError::UnresolvedWorktree(named.name.clone())),
        },
    }
}

/// The worktree that a name is resolved to is one of the worktrees. It is at the
/// path that the name spells, or its display name or its whole path as it is shown
/// equals the name; or none of the worktrees is like that, and it is on the branch
/// of that name.
pub proof fn named_worktree_bears_the_name(entries: Seq<EntryModel>, named: NamedWorktree)
    ensures
        named_entry(entries, named) matches Ok(entry) ==> {
            let path = match named.canonical {
                Some(canonical) => canonical.bytes@,
                None => vstd::utf8::encode_utf8(named.name@),
            };
            &&& entries.contains(entry)
            &&& {
                ||| same_path(entry.path, path)
                ||| display_name(entry.path) == named.name@
                ||| shown_text(entry.path) == named.name@
                ||| {
                    &&& named.branch matches BranchLookup::Found(branch) && entry.branch_name
                        == Some(branch.name@)
                    &&& forall|i: int|
                        0 <= i < entries.len() ==> {
                            &&& !same_path((#[trigger] entries[i]).path, path)
                            &&& display_name(entries[i].path) != named.name@
                            &&& shown_text(entries[i].path) != named.name@
                        }
                }
            }
        },
{
    let path = best_path(vstd::utf8::encode_utf8(named.name@), opt_path(named.canonical));
    let is_meant = is_called(named.name@, path);
    lemma_first_where(entries, is_meant);
    if first_where(entries, is_meant) is None {
        assert forall|i: int| 0 <= i < entries.len() implies {
            &&& !same_path((#[trigger] entries[i]).path, path)
            &&& display_name(entries[i].path) != named.name@
            &&& shown_text(entries[i].path) != named.name@
        } by {
            assert(!is_meant(entries[i]));
        }
    }
    if let LookupModel::Found(branch) = named.branch@ {
        lemma_first_where(entries, is_on(branch));
    }
}

/// Where one worktree alone is at the path that a name spells, or is called or
/// located so, the name means that worktree, whatever branch there is.
pub proof fn sole_worktree_of_a_name_is_meant(
    entries: Seq<EntryModel>,
    named: NamedWorktree,
    owner: int,
)
    requires
        0 <= owner < entries.len(),
        forall|i: int|
            0 <= i < entries.len() ==> ({
                ||| same_path(
                    (#[trigger] entries[i]).path,
                    match named.canonical {
                        Some(canonical) => canonical.bytes@,
                        None => vstd::utf8::encode_utf8(named.name@),
                    },
                )
                ||| display_name(entries[i].path) == named.name@
                ||| shown_text(entries[i].path) == named.name@
            } <==> i == owner),
    ensures
        named_entry(entries, named) == Ok::<EntryModel, ErrorModel>(entries[owner]),
{
    let path = best_path(vstd::utf8::encode_utf8(named.name@), opt_path(named.canonical));
    let is_meant = is_called(named.name@, path);
    lemma_first_where(entries, is_meant);
    assert(is_meant(entries[owner]));
    let entry = first_where(entries, is_meant)->0;
    let i = choose|i: int| 0 <= i < entries.len() && entries[i] == entry;
    assert(is_meant(entries[i]));
}

/// Where some worktree is at the path that a name spells, or is called or located
/// so, the first such worktree is meant.
pub proof fn first_worktree_of_a_name_is_meant(
    entries: Seq<EntryModel>,
    named: NamedWorktree,
    owner: int,
)
    requires
        0 <= owner < entries.len(),
        same_path(
            entries[owner].path,
            match named.canonical {
                Some(canonical) => canonical.bytes@,
                None => vstd::utf8::encode_utf8(named.name@),
            },
        ) || display_name(entries[owner].path) == named.name@ || shown_text(entries[owner].path)
            == named.name@,
        forall|i: int|
            0 <= i < owner ==> {
                &&& !same_path(
                    (#[trigger] entries[i]).path,
                    match named.canonical {
                        Some(canonical) => canonical.bytes@,
                        None => vstd::utf8::encode_utf8(named.name@),
                    },
                )
                &&& display_name(entries[i].path) != named.name@
                &&& shown_text(entries[i].path) != named.name@
            },
    ensures
        named_entry(entries, named) == Ok::<EntryModel, ErrorModel>(entries[owner]),
{
    let path = best_path(vstd::utf8::encode_utf8(named.name@), opt_path(named.canonical));
    lemma_first_is_found(entries, is_called(named.name@, path), owner);
}

/// Where no worktree is at the path that a name spells, nor is called or located
/// so, the local branch of that name decides. The first worktree on it is meant;
/// without such a worktree or such a branch, the name is not resolved; and where
/// the branch could not be looked up, that is what is told.
pub proof fn branch_decides_where_no_name_does(
    entries: Seq<EntryModel>,
    named: NamedWorktree,
    owner: int,
)
    requires
        forall|i: int|
            0 <= i < entries.len() ==> {
                &&& !same_path(
                    (#[trigger] entries[i]).path,
                    match named.canonical {
                        Some(canonical) => canonical.bytes@,
                        None => vstd::utf8::encode_utf8(named.name@),
                    },
                )
                &&& display_name(entries[i].path) != named.name@
                &&& shown_text(entries[i].path) != named.name@
            },
    ensures
        match named.branch {
            BranchLookup::Found(branch) => {
                &&& 0 <= owner < entries.len() && entries[owner].branch_name == Some(branch.name@)
                    && (forall|i: int|
                    0 <= i < owner ==> (#[trigger] entries[i]).branch_name != Some(branch.name@))
                    ==> named_entry(entries, named) == Ok::<EntryModel, ErrorModel>(entries[owner])
                &&& (forall|i: int|
                    0 <= i < entries.len() ==> (#[trigger] entries[i]).branch_name != Some(
                        branch.name@,
                    )) ==> named_entry(entries, named) == Err::<EntryModel, ErrorModel>(
                    ErrorModel::UnresolvedWorktree(named.name@),
                )
            },
            BranchLookup::Failed(reason) => named_entry(entries, named) == Err::<
                EntryModel,
                ErrorModel,
            >(ErrorModel::FindingBranch(reason@)),
            _ => named_entry(entries, named) == Err::<EntryModel, ErrorModel>(
                ErrorModel::UnresolvedWorktree(named.name@),
            ),
        },
{
    let path = best_path(vstd::utf8::encode_utf8(named.name@), opt_path(named.canonical));
    let is_meant = is_called(named.name@, path);
    lemma_first_where(entries, is_meant);
    if first_where(entries, is_meant) is Some {
        let entry = first_where(entries, is_meant)->0;
        let i = choose|i: int| 0 <= i < entries.len() && entries[i] == entry;
        assert(!is_meant(entries[i]));
    }
    if let BranchLookup::Found(branch) = named.branch {
        if 0 <= owner < entries.len() && entries[owner].branch_name == Some(branch.name@) && (
        forall|i: int|
            0 <= i < owner ==> (#[trigger] entries[i]).branch_name != Some(branch.name@)) {
            lemma_first_is_found(entries, is_on(branch.name@), owner);
        }
        lemma_first_where(entries, is_on(branch.name@));
        if first_where(entries, is_on(branch.name@)) is Some {
            let entry = first_where(entries, is_on(branch.name@))->0;
            let i = choose|i: int| 0 <= i < entries.len() && entries[i] == entry;
            assert(entries[i].branch_name == Some(branch.name@));
        }
    }
}

/// Without a name, the first current worktree is meant, and without one it is told
/// that there is none; with a name, it is the worktree of that name.
pub proof fn the_current_worktree_is_meant_without_a_name(
    entries: Seq<EntryModel>,
    named: NamedWorktree,
    owner: int,
)
    ensures
        rm_entry(entries, Some(named)) == named_entry(entries, named),
        0 <= owner < entries.len() && entries[owner].is_current && (forall|i: int|
            0 <= i < owner ==> !(#[trigger] entries[i]).is_current) ==> rm_entry(entries, None)
            == Ok::<EntryModel, ErrorModel>(entries[owner]),
        (forall|i: int| 0 <= i < entries.len() ==> !(#[trigger] entries[i]).is_current)
            ==> rm_entry(entries, None) == Err::<EntryModel, ErrorModel>(
            ErrorModel::NoCurrentWorktree,
        ),
{
    if 0 <= owner < entries.len() && entries[owner].is_current && (forall|i: int|
        0 <= i < owner ==> !(#[trigger] entries[i]).is_current) {
        lemma_first_is_found(entries, is_current(), owner);
    }
    lemma_first_where(entries, is_current());
    if first_where(entries, is_current()) is Some {
        let entry = first_where(entries, is_current())->0;
        let i = choose|i: int| 0 <= i < entries.len() && entries[i] == entry;
        assert(entries[i].is_current);
    }
}

/// A target stands for the one head that it resolved to. With none or several, the
/// target is told.
pub proof fn targets_stand_for_their_one_head(target: Seq<char>, heads: Seq<Seq<char>>)
    ensures
        forall|head: Seq<char>|
            target_commit(target, heads) == Ok::<Seq<char>, ErrorModel>(head) <==> heads
                == seq![head],
        heads.len() == 0 ==> target_commit(target, heads) == Err::<Seq<char>, ErrorModel>(
            ErrorModel::NoCommits(target),
        ),
        heads.len() > 1 ==> target_commit(target, heads) == Err::<Seq<char>, ErrorModel>(
            ErrorModel::MultipleHeads(target),
        ),
{
    if heads.len() == 1 {
        assert(heads =~= seq![heads[0]]);
    }
    assert forall|head: Seq<char>| heads == seq![head] implies heads.len() == 1 && heads[0]
        == head by {
        assert(seq![head][0] == head);
    }
}

/// A branch that was found is the branch looked for; a missing one and a name that
/// no branch can have are no branch; and a failed lookup is an error of its own.
pub proof fn branches_are_what_was_found(name: Seq<char>)
    ensures
        branch_found(LookupModel::Found(name)) == Ok::<Option<Seq<char>>, ErrorModel>(Some(name)),
        branch_found(LookupModel::NotFound) == Ok::<Option<Seq<char>>, ErrorModel>(None),
        branch_found(LookupModel::InvalidName) == Ok::<Option<Seq<char>>, ErrorModel>(None),
        branch_found(LookupModel::Failed(name)) == Err::<Option<Seq<char>>, ErrorModel>(
            ErrorModel::FindingBranch(name),
        ),
{
}

} // verus!
