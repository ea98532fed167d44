use crate::library::branch::{Branch, BranchView};
use crate::library::commit::{Commit, CommitDate, CommitView};
use crate::library::error::VcsError;
use crate::library::files::File;
use crate::library::snapshot_store::SnapshotStore;
use crate::library::vcs_repository::{has_branch, RepositoryView, VcsRepository};
use crate::utils::operation_hash::{calculate_hash, commit_id};
use crate::utils::text::str_equal;
use crate::utils::work_with_commit_files::file_views;
use vstd::prelude::*;
use vstd::string::StringExecFns;

verus! {

/// The commit that a branch called `name` starts with, made on `repo` at the
/// moment `date`: a child of the current commit, marked as a branch origin.
pub open spec fn origin_commit(
    repo: RepositoryView,
    name: Seq<char>,
    date: CommitDate,
) -> CommitView {
    CommitView {
        parent: Some(commit_id(repo.current_commit)),
        message: "Initial commit "@ + name,
        is_first_in_branch: true,
        root_path: repo.root_dir,
        date,
    }
}

/// The repository after a branch called `name` was created at `date`: the new
/// branch comes last, starts and ends at its origin commit, and is the
/// current branch; the origin commit is the current commit and in the index.
pub open spec fn new_branch_spec(
    repo: RepositoryView,
    name: Seq<char>,
    date: CommitDate,
) -> RepositoryView {
    let origin = origin_commit(repo, name, date);
    RepositoryView {
        branches: repo.branches.push(
            BranchView { first_commit: origin, last_commit: origin, name },
        ),
        current_branch_id: repo.branches.len() as int,
        all_commits: repo.all_commits.insert(commit_id(origin), origin),
        current_commit: origin,
        ..repo
    }
}

/// Why a branch called `name` cannot be created, if it cannot: the current
/// branch is not master; the name is taken; or the current commit is not the
/// last commit of master.
pub open spec fn branch_refusal(repo: RepositoryView, name: Seq<char>) -> Option<VcsError> {
    if repo.branches[repo.current_branch_id].name != "master"@ {
        Some(VcsError::NotOnMaster)
    } else if has_branch(repo.branches, name) {
        Some(VcsError::BranchExists)
    } else if repo.current_commit != repo.branches[0].last_commit {
        Some(VcsError::NotOnMasterHead)
    } else {
        None
    }
}

/// Creates a new branch from the last commit of master and moves to it. The
/// branch starts with a commit of its own, whose snapshot is the working
/// files. Returns the identifier of the commit that the branch forks from.
pub fn new_branch(
    vcs: &mut VcsRepository,
    branch_name: &str,
    working_files: &Vec<File>,
    store: &mut SnapshotStore,
) -> (done: Result<u64, VcsError>)
    requires
        old(vcs).wf(),
    ensures
        final(vcs).wf(),
        match done {
            Ok(parent) => {
                &&& branch_refusal(old(vcs)@, branch_name@).is_none()
                &&& parent == commit_id(old(vcs)@.current_commit)
                &&& final(vcs)@ == new_branch_spec(
                    old(vcs)@,
                    branch_name@,
                    final(vcs)@.current_commit.date,
                )
                &&& final(store)@ == old(store)@.insert(
                    commit_id(final(vcs)@.current_commit),
                    file_views(working_files@),
                )
            },
            Err(e) => {
                &&& branch_refusal(old(vcs)@, branch_name@) == Some(e)
                &&& final(vcs)@ == old(vcs)@
                &&& final(store)@ == old(store)@
            },
        },
{
    if !str_equal(vcs.get_current_branch().get_name(), "master") {
        return Err(VcsError::NotOnMaster);
    }
    if vcs.exists_branch(branch_name) {
        return Err(VcsError::BranchExists);
    }
    if *vcs.get_current_commit() != *vcs.get_last_master_commit() {
        return Err(VcsError::NotOnMasterHead);
    }
    let mut msg = "Initial commit ".to_owned();
    msg.append(branch_name);

    let parent = calculate_hash(vcs.get_current_commit());
    let commit = Commit::init(vcs.get_dir(), msg.as_str(), Some(parent), true);
    let branch = Branch::init(&commit, branch_name);

    store.store(calculate_hash(&commit), working_files);
    vcs.add_branch(&branch);

    Ok(parent)
}

} // verus!
