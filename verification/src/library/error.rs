use vstd::prelude::*;

verus! {

/// The broad kinds of failure.
#[derive(Clone, Copy, Debug, PartialEq, Eq, Structural)]
pub enum ErrorKind {
    /// An unknown commit or branch.
    NotFound,
    /// A duplicate branch name, or an operation attempted from the wrong
    /// branch or position.
    Validation,
    /// Uncommitted changes block the operation.
    DirtyWorkingTree,
    /// The same path was changed incompatibly on both sides of a merge.
    MergeConflict,
    /// The walk along parent links cannot resolve a commit: an invariant of
    /// the graph is broken.
    GraphCorrupt,
    /// A snapshot that the repository speaks of cannot be had.
    StorageFailure,
}

/// Why an operation failed. A failed operation leaves everything as it was.
#[derive(Debug)]
pub enum VcsError {
    /// A commit was attempted while the current commit is not the head of the
    /// current branch.
    NotAtHead,
    /// A commit was attempted with nothing changed.
    NoChanges,
    /// The working tree differs from the current commit; carries the changed
    /// paths.
    DirtyWorkingTree(Vec<String>),
    /// No commit has the given identifier.
    UnknownCommit,
    /// No branch has the given name.
    UnknownBranch,
    /// A branch can be created from master only.
    NotOnMaster,
    /// The branch name is taken.
    BranchExists,
    /// The current commit is not the head of master.
    NotOnMasterHead,
    /// Both sides changed the same path incompatibly; carries those paths.
    MergeConflict(Vec<String>),
    /// A commit belongs to no branch.
    GraphCorrupt,
    /// The commit has no parent.
    NoParent,
    /// The commit does not follow the head of the branch it was appended to.
    NotAChild,
    /// No snapshot is stored under the commit's identifier.
    SnapshotNotFound,
}

impl VcsError {
    /// The kind this error falls under.
    pub open spec fn kind_spec(&self) -> ErrorKind {
        match self {
            VcsError::NotAtHead => ErrorKind::Validation,
            VcsError::NoChanges => ErrorKind::Validation,
            VcsError::DirtyWorkingTree(_) => ErrorKind::DirtyWorkingTree,
            VcsError::UnknownCommit => ErrorKind::NotFound,
            VcsError::UnknownBranch => ErrorKind::NotFound,
            VcsError::NotOnMaster => ErrorKind::Validation,
            VcsError::BranchExists => ErrorKind::Validation,
            VcsError::NotOnMasterHead => ErrorKind::Validation,
            VcsError::MergeConflict(_) => ErrorKind::MergeConflict,
            VcsError::GraphCorrupt => ErrorKind::GraphCorrupt,
            VcsError::NoParent => ErrorKind::Validation,
            VcsError::NotAChild => ErrorKind::Validation,
            VcsError::SnapshotNotFound => ErrorKind::StorageFailure,
        }
    }

    /// Returns the kind this error falls under.
    pub fn kind(&self) -> (kind: ErrorKind)
        ensures
            kind == self.kind_spec(),
    {
        match self {
            VcsError::NotAtHead => ErrorKind::Validation,
            VcsError::NoChanges => ErrorKind::Validation,
            VcsError::DirtyWorkingTree(_) => ErrorKind::DirtyWorkingTree,
            VcsError::UnknownCommit => ErrorKind::NotFound,
            VcsError::UnknownBranch => ErrorKind::NotFound,
            VcsError::NotOnMaster => ErrorKind::Validation,
            VcsError::BranchExists => ErrorKind::Validation,
            VcsError::NotOnMasterHead => ErrorKind::Validation,
            VcsError::MergeConflict(_) => ErrorKind::MergeConflict,
            VcsError::GraphCorrupt => ErrorKind::GraphCorrupt,
            VcsError::NoParent => ErrorKind::Validation,
            VcsError::NotAChild => ErrorKind::Validation,
            VcsError::SnapshotNotFound => ErrorKind::StorageFailure,
        }
    }

    /// The sentence that names this error.
    pub open spec fn message_spec(&self) -> Seq<char> {
        match self {
            VcsError::NotAtHead => "Current commit not last"@,
            VcsError::NoChanges => "No changes"@,
            VcsError::DirtyWorkingTree(_) => "uncommited files"@,
            VcsError::UnknownCommit => "No commit with this hash"@,
            VcsError::UnknownBranch => "No branch with this name"@,
            VcsError::NotOnMaster => "Current branch is not master"@,
            VcsError::BranchExists => "Branch exists"@,
            VcsError::NotOnMasterHead => "Current commit no master last commit"@,
            VcsError::MergeConflict(_) => "Aborting"@,
            VcsError::GraphCorrupt => "No branch with given first commit"@,
            VcsError::NoParent => "No parent in branch_commit"@,
            VcsError::NotAChild => "Commit does not follow the last commit of the branch"@,
            VcsError::SnapshotNotFound => "No dir with this path-commit"@,
        }
    }

    /// Returns a short sentence that names the failure.
    pub fn message(&self) -> (message: &'static str)
        ensures
            message@ == self.message_spec(),
    {
        match self {
            VcsError::NotAtHead => "Current commit not last",
            VcsError::NoChanges => "No changes",
            VcsError::DirtyWorkingTree(_) => "uncommited files",
            VcsError::UnknownCommit => "No commit with this hash",
            VcsError::UnknownBranch => "No branch with this name",
            VcsError::NotOnMaster => "Current branch is not master",
            VcsError::BranchExists => "Branch exists",
            VcsError::NotOnMasterHead => "Current commit no master last commit",
            VcsError::MergeConflict(_) => "Aborting",
            VcsError::GraphCorrupt => "No branch with given first commit",
            VcsError::NoParent => "No parent in branch_commit",
            VcsError::NotAChild => "Commit does not follow the last commit of the branch",
            VcsError::SnapshotNotFound => "No dir with this path-commit",
        }
    }
}

} // verus!
