use crate::library::error::VcsError;
use crate::library::files::{File, FileView};
use crate::library::snapshot_store::SnapshotStore;
use crate::library::vcs_repository::{branch_of, uncommitted_spec, RepositoryView, VcsRepository};
use crate::utils::operation_hash::commit_id;
use crate::utils::work_with_commit_files::{file_views, path_views};
use vstd::prelude::*;

verus! {

/// The repository after the commit with identifier `target` was checked out:
/// it is the current commit, and the branch that owns it the current branch.
pub open spec fn jump_spec(repo: RepositoryView, target: u64) -> RepositoryView {
    let commit = repo.all_commits[target];
    RepositoryView {
        current_commit: commit,
        current_branch_id: branch_of(repo, commit).unwrap(),
        ..repo
    }
}

/// What a checkout of `target` does. It succeeds where the working files
/// hold no uncommitted change, `target` is in the index, a branch owns it and
/// its snapshot exists; the files handed back are that snapshot. Else the
/// repository stays as it was and the error names the first of these that
/// fails.
pub open spec fn jump_outcome(
    repo: RepositoryView,
    containers: Map<u64, Seq<FileView>>,
    working: Seq<FileView>,
    target: u64,
    after: RepositoryView,
    done: Result<Vec<File>, VcsError>,
) -> bool {
    let has_current = containers.contains_key(commit_id(repo.current_commit));
    let clean = has_current && uncommitted_spec(repo, containers, working).len() == 0;
    let known = repo.all_commits.contains_key(target);
    let owned = known && branch_of(repo, repo.all_commits[target]).is_some();
    match done {
        Ok(files) => {
            &&& clean
            &&& owned
            &&& containers.contains_key(target)
            &&& after == jump_spec(repo, target)
            &&& file_views(files@) == containers[target]
        },
        Err(e) => after == repo && match e {
            VcsError::SnapshotNotFound => !has_current || (clean && owned
                && !containers.contains_key(target)),
            VcsError::DirtyWorkingTree(paths) => has_current && path_views(paths@).len() > 0
                && path_views(paths@) == uncommitted_spec(repo, containers, working),
            VcsError::UnknownCommit => clean && !known,
            VcsError::GraphCorrupt => clean && known && !owned,
            _ => false,
        },
    }
}

/// Moves the repository to the commit with the given identifier and returns
/// the files of its snapshot, which are to replace the working files.
pub fn jump_to_commit(
    vcs: &mut VcsRepository,
    commit_hash: u64,
    working_files: &Vec<File>,
    store: &SnapshotStore,
) -> (done: Result<Vec<File>, VcsError>)
    requires
        old(vcs).wf(),
    ensures
        final(vcs).wf(),
        jump_outcome(
            old(vcs)@,
            store@,
            file_views(working_files@),
            commit_hash,
            final(vcs)@,
            done,
        ),
{
    vcs.check_no_uncommited(working_files, store)?;

    let commit = vcs.get_commit_by_hash(commit_hash)?.clone();
    let branch = vcs.get_branch_by_commit(&commit)?.clone();
    let files = store.load(commit_hash)?;

    vcs.change_current_commit(&commit);
    match vcs.change_current_branch(&branch) {
        Ok(_) => {},
        Err(e) => {
            return Err(e);
        },
    }
    Ok(files)
}

} // verus!
