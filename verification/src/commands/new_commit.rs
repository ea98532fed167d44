use crate::library::branch::BranchView;
use crate::library::commit::{Commit, CommitDate, CommitView};
use crate::library::error::VcsError;
use crate::library::files::{File, FileView};
use crate::library::snapshot_store::SnapshotStore;
use crate::library::vcs_repository::{well_formed, RepositoryView, VcsRepository};
use crate::utils::operation_hash::{calculate_hash, commit_id};
use crate::utils::work_with_commit_files::{
    added_files, added_spec, deleted_files, deleted_spec, file_views, modified_files, modified_spec,
    path_views, paths_of,
};
use vstd::prelude::*;

verus! {

/// What a commit changed: the new commit's identifier and the paths that
/// were added, modified and deleted since its parent.
#[derive(Debug)]
pub struct CommitReport {
    pub hash: u64,
    pub added: Vec<String>,
    pub modified: Vec<String>,
    pub deleted: Vec<String>,
}

/// The commit that `new_commit` makes on `repo` at the moment `date`.
pub open spec fn next_commit(
    repo: RepositoryView,
    msg: Seq<char>,
    date: CommitDate,
) -> CommitView {
    CommitView {
        parent: Some(commit_id(repo.current_commit)),
        message: msg,
        is_first_in_branch: false,
        root_path: repo.root_dir,
        date,
    }
}

/// The repository after a commit with message `msg` was made at `date`: the
/// new commit is the child of what was the current commit, the last commit
/// of the current branch, the current commit, and in the index.
pub open spec fn commit_spec(
    repo: RepositoryView,
    msg: Seq<char>,
    date: CommitDate,
) -> RepositoryView {
    let commit = next_commit(repo, msg, date);
    RepositoryView {
        branches: repo.branches.update(
            repo.current_branch_id,
            BranchView { last_commit: commit, ..repo.branches[repo.current_branch_id] },
        ),
        all_commits: repo.all_commits.insert(commit_id(commit), commit),
        current_commit: commit,
        ..repo
    }
}

/// A commit follows the current commit: its parent is the identifier of
/// what was the current commit, and it is both the current commit and the
/// last commit of the current branch afterwards. The repository stays
/// well formed.
pub proof fn lemma_commit_follows_current(repo: RepositoryView, msg: Seq<char>, date: CommitDate)
    requires
        well_formed(repo),
    ensures
        ({
            let after = commit_spec(repo, msg, date);
            &&& after.current_commit.parent == Some(commit_id(repo.current_commit))
            &&& after.current_commit == after.branches[after.current_branch_id].last_commit
            &&& well_formed(after)
        }),
{
}

/// The repository after a sequence of commits, each given by its message and
/// date.
pub open spec fn after_commits(
    repo: RepositoryView,
    steps: Seq<(Seq<char>, CommitDate)>,
) -> RepositoryView
    decreases steps.len(),
{
    if steps.len() == 0 {
        repo
    } else {
        commit_spec(after_commits(repo, steps.drop_last()), steps.last().0, steps.last().1)
    }
}

/// Along any sequence of commits, each new commit's parent is the identifier
/// of the commit that was current before it, and the current commit is
/// always the last commit of the current branch.
pub proof fn lemma_commits_advance_head(repo: RepositoryView, steps: Seq<(Seq<char>, CommitDate)>)
    requires
        well_formed(repo),
    ensures
        well_formed(after_commits(repo, steps)),
        forall|n: int|
            #![trigger steps.take(n)]
            0 < n <= steps.len() ==> {
                let before = after_commits(repo, steps.take(n - 1));
                let after = after_commits(repo, steps.take(n));
                &&& after.current_commit.parent == Some(commit_id(before.current_commit))
                &&& after.current_commit == after.branches[after.current_branch_id].last_commit
            },
    decreases steps.len(),
{
    if steps.len() > 0 {
        let shorter = steps.drop_last();
        lemma_commits_advance_head(repo, shorter);
        lemma_commit_follows_current(after_commits(repo, shorter), steps.last().0, steps.last().1);
        assert forall|n: int| #![trigger steps.take(n)] 0 < n <= steps.len() implies {
            let before = after_commits(repo, steps.take(n - 1));
            let after = after_commits(repo, steps.take(n));
            &&& after.current_commit.parent == Some(commit_id(before.current_commit))
            &&& after.current_commit == after.branches[after.current_branch_id].last_commit
        } by {
            if n < steps.len() {
                assert(steps.take(n) =~= shorter.take(n));
                assert(steps.take(n - 1) =~= shorter.take(n - 1));
            } else {
                assert(steps.take(n) =~= steps);
                assert(steps.take(n - 1) =~= shorter);
            }
        }
    }
}

/// Why a commit of `working` is refused, if it is: the current commit is not
/// the last of its branch; its snapshot is missing; or nothing changed.
pub open spec fn commit_refusal(
    repo: RepositoryView,
    containers: Map<u64, Seq<FileView>>,
    working: Seq<FileView>,
) -> Option<VcsError> {
    let snapshot = containers[commit_id(repo.current_commit)];
    if repo.current_commit != repo.branches[repo.current_branch_id].last_commit {
        Some(VcsError::NotAtHead)
    } else if !containers.contains_key(commit_id(repo.current_commit)) {
        Some(VcsError::SnapshotNotFound)
    } else if added_spec(working, snapshot).len() == 0 && modified_spec(working, snapshot).len()
        == 0 && deleted_spec(working, snapshot).len() == 0 {
        Some(VcsError::NoChanges)
    } else {
        None
    }
}

/// Creates a new commit with the given message from the working files, or
/// says why there can be none. On success the working files are stored as the
/// new commit's snapshot; on failure nothing changes.
pub fn new_commit(
    vcs: &mut VcsRepository,
    msg: &str,
    working_files: &Vec<File>,
    store: &mut SnapshotStore,
) -> (done: Result<CommitReport, VcsError>)
    requires
        old(vcs).wf(),
    ensures
        final(vcs).wf(),
        match done {
            Ok(report) => {
                let snapshot = old(store)@[commit_id(old(vcs)@.current_commit)];
                &&& commit_refusal(old(vcs)@, old(store)@, file_views(working_files@)).is_none()
                &&& final(vcs)@ == commit_spec(old(vcs)@, msg@, final(vcs)@.current_commit.date)
                &&& final(vcs)@.current_commit.parent == Some(commit_id(old(vcs)@.current_commit))
                &&& final(vcs)@.current_commit
                    == final(vcs)@.branches[final(vcs)@.current_branch_id].last_commit
                &&& report.hash == commit_id(final(vcs)@.current_commit)
                &&& final(store)@ == old(store)@.insert(report.hash, file_views(working_files@))
                &&& path_views(report.added@) == paths_of(
                    added_spec(file_views(working_files@), snapshot),
                )
                &&& path_views(report.modified@) == paths_of(
                    modified_spec(file_views(working_files@), snapshot),
                )
                &&& path_views(report.deleted@) == paths_of(
                    deleted_spec(file_views(working_files@), snapshot),
                )
            },
            Err(e) => {
                &&& commit_refusal(old(vcs)@, old(store)@, file_views(working_files@)) == Some(e)
                &&& final(vcs)@ == old(vcs)@
                &&& final(store)@ == old(store)@
            },
        },
{
    if *vcs.get_last_branch_commit() != *vcs.get_current_commit() {
        return Err(VcsError::NotAtHead);
    }
    let commit_files = store.load(calculate_hash(vcs.get_current_commit()))?;

    let added = added_files(working_files, &commit_files);
    let modified = modified_files(working_files, &commit_files);
    let deleted = deleted_files(working_files, &commit_files);
    proof {
        let working = file_views(working_files@);
        let snapshot = old(store)@[commit_id(old(vcs)@.current_commit)];
        assert(added@.len() == added_spec(working, snapshot).len()) by {
            assert(path_views(added@).len() == paths_of(added_spec(working, snapshot)).len());
        }
        assert(modified@.len() == modified_spec(working, snapshot).len()) by {
            assert(path_views(modified@).len() == paths_of(modified_spec(working, snapshot)).len());
        }
        assert(deleted@.len() == deleted_spec(working, snapshot).len()) by {
            assert(path_views(deleted@).len() == paths_of(deleted_spec(working, snapshot)).len());
        }
    }

    if added.is_empty() && modified.is_empty() && deleted.is_empty() {
        return Err(VcsError::NoChanges);
    }
    let commit = Commit::init(
        vcs.get_dir(),
        msg,
        Some(calculate_hash(vcs.get_current_commit())),
        false,
    );
    let commit_hash = calculate_hash(&commit);

    let branch = vcs.get_mut_current_branch();
    match branch.add_commit(&commit) {
        Ok(_) => {},
        Err(e) => {
            return Err(e);
        },
    }
    vcs.change_current_commit(&commit);
    vcs.add_commit(&commit);
    store.store(commit_hash, working_files);

    assert(vcs@.branches =~= commit_spec(old(vcs)@, msg@, commit@.date).branches);
    Ok(CommitReport { hash: commit_hash, added, modified, deleted })
}

} // verus!
