use crate::library::commit::{Commit, CommitView};
use crate::library::error::VcsError;
use crate::utils::operation_hash::{calculate_hash, commit_id};
use vstd::prelude::*;
use vstd::std_specs::cmp::PartialEqSpecImpl;

verus! {

/// What a branch is, mathematically: a name and two commits, the one its own
/// history starts with and the one appended last.
pub struct BranchView {
    pub first_commit: CommitView,
    pub last_commit: CommitView,
    pub name: Seq<char>,
}

/// A named pointer into the commit graph.
#[derive(Debug)]
pub struct Branch {
    first_commit: Commit,
    last_commit: Commit,
    name: String,
}

impl View for Branch {
    type V = BranchView;

    closed spec fn view(&self) -> BranchView {
        BranchView {
            first_commit: self.first_commit@,
            last_commit: self.last_commit@,
            name: self.name@,
        }
    }
}

impl Branch {
    /// Creates the master branch, which starts and ends at `commit`.
    pub fn init_master(commit: &Commit) -> (branch: Self)
        ensures
            branch@ == (BranchView {
                first_commit: commit@,
                last_commit: commit@,
                name: "master"@,
            }),
    {
        Self {
            first_commit: commit.clone(),
            last_commit: commit.clone(),
            name: "master".to_owned(),
        }
    }

    /// Creates a branch with the given first commit and name.
    pub fn init(commit: &Commit, name: &str) -> (branch: Self)
        ensures
            branch@ == (BranchView { first_commit: commit@, last_commit: commit@, name: name@ }),
    {
        Self { first_commit: commit.clone(), last_commit: commit.clone(), name: name.to_owned() }
    }

    /// Creates a branch from its parts: the commit it starts with, the
    /// commit appended last, and its name.
    pub fn from_parts(first_commit: Commit, last_commit: Commit, name: &str) -> (branch: Self)
        ensures
            branch@ == (BranchView {
                first_commit: first_commit@,
                last_commit: last_commit@,
                name: name@,
            }),
    {
        Self { first_commit, last_commit, name: name.to_owned() }
    }

    /// Returns the name of the branch.
    pub fn get_name(&self) -> (name: &str)
        ensures
            name@ == self@.name,
    {
        self.name.as_str()
    }

    /// Returns the last commit of the branch.
    pub fn get_last_commit(&self) -> (commit: &Commit)
        ensures
            commit@ == self@.last_commit,
    {
        &self.last_commit
    }

    /// Returns the first commit of the branch.
    pub fn get_first_commit(&self) -> (commit: &Commit)
        ensures
            commit@ == self@.first_commit,
    {
        &self.first_commit
    }

    /// Appends `commit` to the branch: it becomes the last commit, if its
    /// parent is the commit that was last until now. A commit that does not
    /// follow the head is refused and the branch stays as it was.
    pub fn add_commit(&mut self, commit: &Commit) -> (appended: Result<(), VcsError>)
        ensures
            commit@.parent == Some(commit_id(old(self)@.last_commit)) ==> appended is Ok
                && final(self)@ == (BranchView { last_commit: commit@, ..old(self)@ }),
            commit@.parent != Some(commit_id(old(self)@.last_commit)) ==> appended == Err::<
                (),
                VcsError,
            >(VcsError::NotAChild) && final(self)@ == old(self)@,
    {
        let head = calculate_hash(&self.last_commit);
        match commit.get_parent_hash() {
            Ok(parent) => {
                if parent == head {
                    self.last_commit = commit.clone();
                    Ok(())
                } else {
                    Err(VcsError::NotAChild)
                }
            },
            Err(_) => Err(VcsError::NotAChild),
        }
    }
}

impl Clone for Branch {
    fn clone(&self) -> (copy: Self)
        ensures
            copy@ == self@,
    {
        Self {
            first_commit: self.first_commit.clone(),
            last_commit: self.last_commit.clone(),
            name: self.name.clone(),
        }
    }
}

impl PartialEq for Branch {
    fn eq(&self, other: &Self) -> (equal: bool) {
        self.first_commit == other.first_commit && self.last_commit == other.last_commit
            && self.name == other.name
    }
}

impl PartialEqSpecImpl for Branch {
    open spec fn obeys_eq_spec() -> bool {
        true
    }

    open spec fn eq_spec(&self, other: &Self) -> bool {
        self@ == other@
    }
}

} // verus!
