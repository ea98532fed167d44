use crate::library::branch::BranchView;
use crate::library::commit::{CommitDate, CommitView};
use crate::library::error::VcsError;
use crate::library::files::{File, FileView};
use crate::library::snapshot_store::SnapshotStore;
use crate::library::vcs_repository::{
    chain_of, has_branch, ids_of, is_first_named, uncommitted_spec, RepositoryView, VcsRepository,
};
use crate::utils::operation_hash::{calculate_hash, commit_id};
use crate::utils::work_with_commit_files::{
    added_files, added_spec, both_changed, both_changed_spec, file_views, merge_files, merged_spec,
    modified_files, modified_spec, path_views, paths_of,
};
use vstd::prelude::*;

verus! {

/// What a merge did: the identifier of the merge commit, the paths that the
/// two sides do not share and those that the branch modified, and the files
/// of the merge commit's snapshot, which are to replace the working files.
#[derive(Debug)]
pub struct MergeReport {
    pub hash: u64,
    pub added: Vec<String>,
    pub modified: Vec<String>,
    pub files: Vec<File>,
}

/// The place of the branch called `name`.
pub open spec fn place_of(repo: RepositoryView, name: Seq<char>) -> int {
    choose|j: int| is_first_named(repo.branches, name, j)
}

/// The commit that merges the branch called `name` into master at `date`: a
/// child of the last commit of master.
pub open spec fn merge_commit(
    repo: RepositoryView,
    name: Seq<char>,
    date: CommitDate,
) -> CommitView {
    CommitView {
        parent: Some(commit_id(repo.branches[0].last_commit)),
        message: "Merge branch "@ + name,
        is_first_in_branch: false,
        root_path: repo.branches[0].last_commit.root_path,
        date,
    }
}

/// The identifiers of the own commits of the branch called `name`.
pub open spec fn own_commits(repo: RepositoryView, name: Seq<char>) -> Set<u64> {
    ids_of(
        chain_of(
            repo.all_commits,
            repo.branches[place_of(repo, name)].last_commit,
            repo.all_commits.len(),
        ),
    )
}

/// The repository after the branch called `name` was merged at `date`: the
/// merge commit is the last commit of master, the current commit, and in the
/// index; master is the current branch; the merged branch and its own commits
/// are gone.
pub open spec fn merge_spec(
    repo: RepositoryView,
    name: Seq<char>,
    date: CommitDate,
) -> RepositoryView {
    let commit = merge_commit(repo, name, date);
    RepositoryView {
        branches: repo.branches.remove(place_of(repo, name)).update(
            0,
            BranchView { last_commit: commit, ..repo.branches[0] },
        ),
        current_branch_id: 0,
        all_commits: repo.all_commits.remove_keys(own_commits(repo, name)).insert(
            commit_id(commit),
            commit,
        ),
        current_commit: commit,
        ..repo
    }
}

/// The identifier of the commit that the branch called `name` forked from:
/// the parent of the commit it starts with.
pub open spec fn ancestor_of(repo: RepositoryView, name: Seq<char>) -> u64 {
    repo.branches[place_of(repo, name)].first_commit.parent.unwrap()
}

/// The paths on which master and the branch called `name` changed their
/// common ancestor incompatibly.
pub open spec fn merge_conflicts(
    repo: RepositoryView,
    containers: Map<u64, Seq<FileView>>,
    name: Seq<char>,
) -> Seq<Seq<char>> {
    both_changed_spec(
        containers[ancestor_of(repo, name)],
        containers[commit_id(repo.current_commit)],
        containers[commit_id(repo.branches[place_of(repo, name)].last_commit)],
    )
}

/// The files of the merge commit: those of master with what the branch
/// called `name` added and modified.
pub open spec fn merge_snapshot(
    repo: RepositoryView,
    containers: Map<u64, Seq<FileView>>,
    name: Seq<char>,
) -> Seq<FileView> {
    merged_spec(
        containers[commit_id(repo.current_commit)],
        containers[commit_id(repo.branches[place_of(repo, name)].last_commit)],
    )
}

/// What merging the branch called `name` does. It succeeds where the current
/// commit is the last of master, the working files hold no uncommitted
/// change, the branch exists and forked from a commit in the index, the three
/// snapshots exist and the two sides do not conflict. Else repository and
/// store stay as they were, and the error names the first of these that
/// fails; a conflict carries the conflicting paths.
pub open spec fn merge_outcome(
    repo: RepositoryView,
    containers: Map<u64, Seq<FileView>>,
    working: Seq<FileView>,
    name: Seq<char>,
    after: RepositoryView,
    containers_after: Map<u64, Seq<FileView>>,
    done: Result<MergeReport, VcsError>,
) -> bool {
    let on_head = repo.current_commit == repo.branches[0].last_commit;
    let has_current = containers.contains_key(commit_id(repo.current_commit));
    let clean = on_head && has_current && uncommitted_spec(repo, containers, working).len() == 0;
    let known = clean && has_branch(repo.branches, name);
    let branch = repo.branches[place_of(repo, name)];
    let forked = known && branch.first_commit.parent.is_some();
    let rooted = forked && repo.all_commits.contains_key(ancestor_of(repo, name));
    let stored = rooted && containers.contains_key(ancestor_of(repo, name))
        && containers.contains_key(commit_id(branch.last_commit));
    let conflicts = merge_conflicts(repo, containers, name);
    match done {
        Ok(report) => {
            let snapshot = merge_snapshot(repo, containers, name);
            &&& stored
            &&& conflicts.len() == 0
            &&& after == merge_spec(repo, name, after.current_commit.date)
            &&& report.hash == commit_id(after.current_commit)
            &&& containers_after == containers.remove_keys(own_commits(repo, name)).insert(
                report.hash,
                snapshot,
            )
            &&& file_views(report.files@) == snapshot
            &&& path_views(report.added@) == paths_of(
                added_spec(
                    containers[commit_id(branch.last_commit)],
                    containers[commit_id(repo.current_commit)],
                ),
            ) + paths_of(
                added_spec(
                    containers[commit_id(repo.current_commit)],
                    containers[commit_id(branch.last_commit)],
                ),
            )
            &&& path_views(report.modified@) == paths_of(
                modified_spec(
                    containers[commit_id(branch.last_commit)],
                    containers[commit_id(repo.current_commit)],
                ),
            )
        },
        Err(e) => after == repo && containers_after == containers && match e {
            VcsError::NotOnMasterHead => !on_head,
            VcsError::SnapshotNotFound => (on_head && !has_current) || (rooted && !stored),
            VcsError::DirtyWorkingTree(paths) => on_head && has_current && path_views(
                paths@,
            ).len() > 0 && path_views(paths@) == uncommitted_spec(repo, containers, working),
            VcsError::UnknownBranch => clean && !known,
            VcsError::NoParent => known && !forked,
            VcsError::UnknownCommit => forked && !rooted,
            VcsError::MergeConflict(paths) => stored && path_views(paths@).len() > 0
                && path_views(paths@) == conflicts,
            _ => false,
        },
    }
}

/// Whether a merge of the branch called `name` gets as far as the search for
/// conflicts: the current commit is the last of master, nothing is
/// uncommitted, the branch exists and forked from a commit in the index, and
/// the three snapshots exist.
pub open spec fn reaches_oracle(
    repo: RepositoryView,
    containers: Map<u64, Seq<FileView>>,
    working: Seq<FileView>,
    name: Seq<char>,
) -> bool {
    let branch = repo.branches[place_of(repo, name)];
    &&& repo.current_commit == repo.branches[0].last_commit
    &&& containers.contains_key(commit_id(repo.current_commit))
    &&& uncommitted_spec(repo, containers, working).len() == 0
    &&& has_branch(repo.branches, name)
    &&& branch.first_commit.parent.is_some()
    &&& repo.all_commits.contains_key(ancestor_of(repo, name))
    &&& containers.contains_key(ancestor_of(repo, name))
    &&& containers.contains_key(commit_id(branch.last_commit))
}

/// A merge is all or nothing. Whatever the reason, a merge that fails leaves
/// the repository and the store as they were. And where the two sides
/// conflict on any path, the merge does fail, with those paths: no commit is
/// added and no branch deleted.
pub proof fn lemma_merge_all_or_nothing(
    repo: RepositoryView,
    containers: Map<u64, Seq<FileView>>,
    working: Seq<FileView>,
    name: Seq<char>,
    after: RepositoryView,
    containers_after: Map<u64, Seq<FileView>>,
    done: Result<MergeReport, VcsError>,
)
    requires
        merge_outcome(repo, containers, working, name, after, containers_after, done),
    ensures
        done is Err ==> after == repo && containers_after == containers,
        reaches_oracle(repo, containers, working, name) && merge_conflicts(
            repo,
            containers,
            name,
        ).len() > 0 ==> {
            &&& done matches Err(VcsError::MergeConflict(paths))
            &&& path_views(paths@) == merge_conflicts(repo, containers, name)
            &&& after == repo
            &&& containers_after == containers
        },
        reaches_oracle(repo, containers, working, name) && merge_conflicts(
            repo,
            containers,
            name,
        ).len() == 0 ==> done is Ok,
{
}

/// Merges the branch with the given name into master and creates a commit
/// with the result. All or nothing: where the merge is refused, no commit is
/// added, no branch deleted, no snapshot touched, and no files are handed
/// back.
pub fn merge(
    vcs: &mut VcsRepository,
    branch_name: &str,
    working_files: &Vec<File>,
    store: &mut SnapshotStore,
) -> (done: Result<MergeReport, VcsError>)
    requires
        old(vcs).wf(),
    ensures
        final(vcs).wf(),
        merge_outcome(
            old(vcs)@,
            old(store)@,
            file_views(working_files@),
            branch_name@,
            final(vcs)@,
            final(store)@,
            done,
        ),
{
    if *vcs.get_current_commit() != *vcs.get_last_master_commit() {
        return Err(VcsError::NotOnMasterHead);
    }
    vcs.check_no_uncommited(working_files, store)?;

    let branch = vcs.get_branch_by_name(branch_name)?.clone();

    let commit_ancestor_hash = branch.get_first_commit().get_parent_hash()?;
    vcs.get_commit_by_hash(commit_ancestor_hash)?;

    let files_ancestor = store.load(commit_ancestor_hash)?;
    let files_branch = store.load(calculate_hash(branch.get_last_commit()))?;
    let files_master = store.load(calculate_hash(vcs.get_current_commit()))?;

    let both_changed_files = both_changed(&files_ancestor, &files_master, &files_branch);
    if !both_changed_files.is_empty() {
        return Err(VcsError::MergeConflict(both_changed_files));
    }
    let nxt_commit = vcs.get_current_commit().merge_init(branch.get_last_commit(), branch_name);
    let hash = calculate_hash(&nxt_commit);

    let mut added = added_files(&files_branch, &files_master);
    let mut removed = added_files(&files_master, &files_branch);
    proof {
        assert(path_views(added@ + removed@) =~= path_views(added@) + path_views(removed@));
    }
    added.append(&mut removed);
    let modified = modified_files(&files_branch, &files_master);
    let merged = merge_files(files_master, &files_branch);

    let master = match vcs.get_branch_by_name("master") {
        Ok(master) => master.clone(),
        Err(e) => {
            return Err(e);
        },
    };
    match vcs.change_current_branch(&master) {
        Ok(_) => {},
        Err(e) => {
            return Err(e);
        },
    }
    vcs.delete_branch(branch_name, store);
    let head = vcs.get_mut_current_branch();
    match head.add_commit(&nxt_commit) {
        Ok(_) => {},
        Err(e) => {
            return Err(e);
        },
    }
    vcs.change_current_commit(&nxt_commit);
    vcs.add_commit(&nxt_commit);
    store.store(hash, &merged);

    assert(vcs@.branches =~= merge_spec(old(vcs)@, branch_name@, nxt_commit@.date).branches);
    proof {
        vcs.lemma_index_finite();
    }
    Ok(MergeReport { hash, added, modified, files: merged })
}

} // verus!
