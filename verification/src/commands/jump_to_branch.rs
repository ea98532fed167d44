use crate::commands::jump_to_commit::{jump_outcome, jump_to_commit};
use crate::library::branch::BranchView;
use crate::library::error::VcsError;
use crate::library::files::File;
use crate::library::snapshot_store::SnapshotStore;
use crate::library::vcs_repository::{has_branch, is_first_named, VcsRepository};
use crate::utils::operation_hash::{calculate_hash, commit_id};
use crate::utils::work_with_commit_files::file_views;
use vstd::prelude::*;

verus! {

/// The identifier of the last commit of the branch called `name`.
pub open spec fn head_of(branches: Seq<BranchView>, name: Seq<char>) -> u64 {
    commit_id(branches[choose|j: int| is_first_named(branches, name, j)].last_commit)
}

/// Moves the repository to the last commit of the branch with the given name
/// and returns the files of its snapshot. Where no branch has the name,
/// nothing changes.
pub fn jump_to_branch(
    vcs: &mut VcsRepository,
    branch_name: &str,
    working_files: &Vec<File>,
    store: &SnapshotStore,
) -> (done: Result<Vec<File>, VcsError>)
    requires
        old(vcs).wf(),
    ensures
        final(vcs).wf(),
        !has_branch(old(vcs)@.branches, branch_name@) ==> final(vcs)@ == old(vcs)@ && (
        done matches Err(VcsError::UnknownBranch)),
        has_branch(old(vcs)@.branches, branch_name@) ==> jump_outcome(
            old(vcs)@,
            store@,
            file_views(working_files@),
            head_of(old(vcs)@.branches, branch_name@),
            final(vcs)@,
            done,
        ),
{
    let branch = vcs.get_branch_by_name(branch_name)?;
    let hash = calculate_hash(branch.get_last_commit());
    jump_to_commit(vcs, hash, working_files, store)
}

} // verus!
