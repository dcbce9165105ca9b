//! Names of references.

use vstd::prelude::*;

use crate::text::{after_prefix, strip_prefix};

verus! {

/// The name of a reference, such as `refs/heads/main`.
#[derive(Debug)]
pub struct ReferenceName {
    /// The name in full.
    pub name: String,
}

impl View for ReferenceName {
    type V = Seq<char>;

    open spec fn view(&self) -> Seq<char> {
        self.name@
    }
}

/// The characters of a reference name that may be missing.
pub open spec fn opt_name(name: Option<ReferenceName>) -> Option<Seq<char>> {
    match name {
        Some(name) => Some(name@),
        None => None,
    }
}

/// The name of the local branch called `branch`.
pub open spec fn local_branch(branch: Seq<char>) -> Seq<char> {
    "refs/heads/"@ + branch
}

/// What a reference name is called where it is clear that it names a local
/// branch; the name in full where it names something else.
pub open spec fn branch_short_name(name: Seq<char>) -> Seq<char> {
    match after_prefix(name, "refs/heads/"@) {
        Some(short) => short,
        None => name,
    }
}

impl ReferenceName {
    /// The reference with the given name.
    pub fn from_text(name: &str) -> (reference: ReferenceName)
        ensures
            reference@ == name@,
    {
        ReferenceName { name: name.to_owned() }
    }

    /// The name of the local branch called `branch`.
    pub fn from_local_branch(branch: &str) -> (reference: ReferenceName)
        ensures
            reference@ == local_branch(branch@),
    {
        let mut name = "refs/heads/".to_owned();
        name.append(branch);
        ReferenceName { name }
    }

    /// The name in full.
    pub fn as_str(&self) -> (name: &str)
        ensures
            name@ == self@,
    {
        self.name.as_str()
    }

    /// The name without `refs/heads/`, if it starts so.
    pub fn short_name(&self) -> (short: String)
        ensures
            short@ == branch_short_name(self@),
    {
        match strip_prefix(self.name.as_str(), "refs/heads/") {
            Some(short) => short,
            None => self.name.clone(),
        }
    }

    /// Whether two names are the same.
    pub fn is_same(&self, other: &ReferenceName) -> (same: bool)
        ensures
            same == (self@ == other@),
    {
        self.name == other.name
    }
}

impl Clone for ReferenceName {
    fn clone(&self) -> (copy: ReferenceName)
        ensures
            copy@ == self@,
    {
        ReferenceName { name: self.name.clone() }
    }
}

impl PartialEq for ReferenceName {
    fn eq(&self, other: &ReferenceName) -> (same: bool) {
        self.is_same(other)
    }
}

impl vstd::std_specs::cmp::PartialEqSpecImpl for ReferenceName {
    open spec fn obeys_eq_spec() -> bool {
        true
    }

    open spec fn eq_spec(&self, other: &ReferenceName) -> bool {
        self@ == other@
    }
}

impl Eq for ReferenceName {

}

/// The short name of a local branch is what the branch is called.
pub proof fn short_name_of_local_branch(branch: Seq<char>)
    ensures
        branch_short_name(local_branch(branch)) == branch,
{
    let name = local_branch(branch);
    assert("refs/heads/"@ =~= name.take("refs/heads/"@.len() as int));
    assert(name.skip("refs/heads/"@.len() as int) =~= branch);
}

/// A name is shortened by `refs/heads/` where it starts so, and kept where it does
/// not.
pub proof fn only_local_branches_are_shortened(name: Seq<char>)
    ensures
        "refs/heads/"@.is_prefix_of(name) ==> name == "refs/heads/"@ + branch_short_name(name),
        !"refs/heads/"@.is_prefix_of(name) ==> branch_short_name(name) == name,
{
    if "refs/heads/"@.is_prefix_of(name) {
        assert(name =~= "refs/heads/"@ + name.skip("refs/heads/"@.len() as int));
    }
}

/// The reference of a local branch is its name behind `refs/heads/`.
pub proof fn local_branches_are_below_heads(branch: Seq<char>)
    ensures
        local_branch(branch) == "refs/heads/"@ + branch,
{
}

} // verus!
