use crate::library::branch::BranchView;
use crate::library::commit::CommitView;
use crate::library::files::File;
use crate::library::snapshot_store::SnapshotStore;
use crate::library::vcs_repository::VcsRepository;
use crate::utils::operation_hash::commit_id;
use crate::utils::work_with_commit_files::file_views;
use vstd::prelude::*;

verus! {

/// Starts version control of the directory at `path`, which holds `files`:
/// the new repository has one branch, master, and one commit, "Initial
/// commit", without parent; `files` becomes its snapshot.
pub fn init(path: &str, files: &Vec<File>, store: &mut SnapshotStore) -> (repo: VcsRepository)
    ensures
        repo.wf(),
        repo@.current_commit == (CommitView {
            parent: None,
            message: "Initial commit"@,
            is_first_in_branch: true,
            root_path: path@,
            date: repo@.current_commit.date,
        }),
        repo@.branches == seq![
            BranchView {
                first_commit: repo@.current_commit,
                last_commit: repo@.current_commit,
                name: "master"@,
            },
        ],
        repo@.current_branch_id == 0,
        repo@.all_commits == Map::<u64, CommitView>::empty().insert(
            commit_id(repo@.current_commit),
            repo@.current_commit,
        ),
        repo@.root_dir == path@,
        final(store)@ == old(store)@.insert(commit_id(repo@.current_commit), file_views(files@)),
{
    VcsRepository::init(path, files, store)
}

} // verus!
