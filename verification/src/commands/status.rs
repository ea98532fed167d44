use crate::library::error::VcsError;
use crate::library::files::File;
use crate::library::snapshot_store::SnapshotStore;
use crate::library::vcs_repository::VcsRepository;
use crate::utils::operation_hash::{calculate_hash, commit_id};
use crate::utils::work_with_commit_files::{
    added_files, added_spec, deleted_files, deleted_spec, file_views, modified_files, modified_spec,
    path_views, paths_of,
};
use vstd::prelude::*;

verus! {

/// The state of the working files: the name of the current branch and the
/// paths added, modified and deleted since the current commit.
#[derive(Debug)]
pub struct StatusReport {
    pub branch: String,
    pub added: Vec<String>,
    pub modified: Vec<String>,
    pub deleted: Vec<String>,
}

/// Compares the working files with the snapshot of the current commit. The
/// repository and the store are read, never changed.
pub fn status(vcs: &VcsRepository, working_files: &Vec<File>, store: &SnapshotStore) -> (found:
    Result<StatusReport, VcsError>)
    requires
        vcs.wf(),
    ensures
        match found {
            Ok(report) => {
                let snapshot = store@[commit_id(vcs@.current_commit)];
                &&& store@.contains_key(commit_id(vcs@.current_commit))
                &&& report.branch@ == vcs@.branches[vcs@.current_branch_id].name
                &&& path_views(report.added@) == paths_of(
                    added_spec(file_views(working_files@), snapshot),
                )
                &&& path_views(report.modified@) == paths_of(
                    modified_spec(file_views(working_files@), snapshot),
                )
                &&& path_views(report.deleted@) == paths_of(
                    deleted_spec(file_views(working_files@), snapshot),
                )
            },
            Err(e) => e == VcsError::SnapshotNotFound && !store@.contains_key(
                commit_id(vcs@.current_commit),
            ),
        },
{
    let commit_files = store.load(calculate_hash(vcs.get_current_commit()))?;

    let added = added_files(working_files, &commit_files);
    let modified = modified_files(working_files, &commit_files);
    let deleted = deleted_files(working_files, &commit_files);

    let branch = vcs.get_current_branch().get_name().to_owned();
    Ok(StatusReport { branch, added, modified, deleted })
}

} // verus!
