use crate::library::branch::{Branch, BranchView};
use crate::library::commit::{Commit, CommitView};
use crate::library::error::VcsError;
use crate::library::files::{File, FileView};
use crate::library::snapshot_store::SnapshotStore;
use crate::utils::operation_hash::{calculate_hash, commit_id};
use crate::utils::text::str_equal;
use crate::utils::work_with_commit_files::{
    all_changed_files, all_changed_spec, file_views, path_views,
};
use std::collections::HashMap;
use vstd::prelude::*;
use vstd::std_specs::iter::IteratorSpec;

verus! {

/// What a repository is, mathematically.
pub struct RepositoryView {
    /// The branches, master first.
    pub branches: Seq<BranchView>,
    /// The place of the current branch among them.
    pub current_branch_id: int,
    /// Every commit that exists, by its identifier.
    pub all_commits: Map<u64, CommitView>,
    /// The directory that the repository tracks.
    pub root_dir: Seq<char>,
    /// The commit that is checked out.
    pub current_commit: CommitView,
}

/// Whether `j` is the place of the first branch called `name`.
pub open spec fn is_first_named(branches: Seq<BranchView>, name: Seq<char>, j: int) -> bool {
    &&& 0 <= j < branches.len()
    &&& branches[j].name == name
    &&& forall|k: int| 0 <= k < j ==> (#[trigger] branches[k]).name != name
}

/// Whether a branch is called `name`.
pub open spec fn has_branch(branches: Seq<BranchView>, name: Seq<char>) -> bool {
    exists|j: int| 0 <= j < branches.len() && (#[trigger] branches[j]).name == name
}

/// Whether `j` is the place of the first branch whose first commit is `origin`.
pub open spec fn is_first_from(branches: Seq<BranchView>, origin: CommitView, j: int) -> bool {
    &&& 0 <= j < branches.len()
    &&& branches[j].first_commit == origin
    &&& forall|k: int| 0 <= k < j ==> (#[trigger] branches[k]).first_commit != origin
}

/// The branch-origin commit that `c` leads back to: `c` itself where it is
/// one, else that of its parent, looked up in `commits`. At most `fuel`
/// parent links are followed; `None` where the walk ends without an origin.
pub open spec fn origin_of(commits: Map<u64, CommitView>, c: CommitView, fuel: nat) -> Option<
    CommitView,
>
    decreases fuel,
{
    if c.is_first_in_branch {
        Some(c)
    } else if fuel == 0 {
        None
    } else {
        match c.parent {
            Some(p) => if commits.contains_key(p) {
                origin_of(commits, commits[p], (fuel - 1) as nat)
            } else {
                None
            },
            None => None,
        }
    }
}

/// The place of the branch that owns `c`: the first branch whose first
/// commit is the origin that `c` leads back to, within as many parent links
/// as there are commits.
pub open spec fn branch_of(repo: RepositoryView, c: CommitView) -> Option<int> {
    match origin_of(repo.all_commits, c, repo.all_commits.len()) {
        Some(origin) => if exists|j: int| is_first_from(repo.branches, origin, j) {
            Some(choose|j: int| is_first_from(repo.branches, origin, j))
        } else {
            None
        },
        None => None,
    }
}

/// The commits of a branch's own history, last first: `c`, then its
/// ancestors, up to and including the first branch-origin commit. The walk
/// also ends where a parent is missing or after `fuel` parent links.
pub open spec fn chain_of(commits: Map<u64, CommitView>, c: CommitView, fuel: nat) -> Seq<
    CommitView,
>
    decreases fuel,
{
    if c.is_first_in_branch || fuel == 0 {
        seq![c]
    } else {
        match c.parent {
            Some(p) => if commits.contains_key(p) {
                seq![c] + chain_of(commits, commits[p], (fuel - 1) as nat)
            } else {
                seq![c]
            },
            None => seq![c],
        }
    }
}

/// What the own history of a branch is made of: it begins with the last
/// commit; each commit but the final one is no branch origin and is followed
/// by its parent, as the index holds it; so the walk never passes a branch
/// origin, and the commits that a branch forked from are no part of it.
pub proof fn lemma_chain_ends_at_origin(commits: Map<u64, CommitView>, c: CommitView, fuel: nat)
    ensures
        ({
            let chain = chain_of(commits, c, fuel);
            &&& 1 <= chain.len() <= fuel + 1
            &&& chain[0] == c
            &&& forall|i: int|
                0 <= i < chain.len() - 1 ==> {
                    &&& !(#[trigger] chain[i]).is_first_in_branch
                    &&& chain[i].parent.is_some()
                    &&& commits.contains_key(chain[i].parent.unwrap())
                    &&& chain[i + 1] == commits[chain[i].parent.unwrap()]
                }
            &&& forall|i: int|
                0 <= i < chain.len() && (#[trigger] chain[i]).is_first_in_branch ==> i
                    == chain.len() - 1
        }),
    decreases fuel,
{
    if !c.is_first_in_branch && fuel > 0 && c.parent.is_some() && commits.contains_key(
        c.parent.unwrap(),
    ) {
        let rest = chain_of(commits, commits[c.parent.unwrap()], (fuel - 1) as nat);
        lemma_chain_ends_at_origin(commits, commits[c.parent.unwrap()], (fuel - 1) as nat);
        let chain = chain_of(commits, c, fuel);
        assert(chain =~= seq![c] + rest);
        assert forall|i: int| 0 <= i < chain.len() - 1 implies {
            &&& !(#[trigger] chain[i]).is_first_in_branch
            &&& chain[i].parent.is_some()
            &&& commits.contains_key(chain[i].parent.unwrap())
            &&& chain[i + 1] == commits[chain[i].parent.unwrap()]
        } by {
            if i > 0 {
                assert(chain[i] == rest[i - 1]);
                assert(chain[i + 1] == rest[i]);
            }
        }
        assert forall|i: int|
            0 <= i < chain.len() && (#[trigger] chain[i]).is_first_in_branch implies i
            == chain.len() - 1 by {
            if i > 0 {
                assert(chain[i] == rest[i - 1]);
            }
        }
    }
}

/// Deleting a branch takes from the index exactly the identifiers of the
/// branch's own commits, and leaves every other commit as it was.
pub proof fn lemma_delete_branch_removes_own_commits(repo: RepositoryView, name: Seq<char>, k: u64)
    requires
        exists|j: int| is_first_named(repo.branches, name, j) && j != 0,
    ensures
        ({
            let j = choose|j: int| is_first_named(repo.branches, name, j);
            let own = ids_of(
                chain_of(repo.all_commits, repo.branches[j].last_commit, repo.all_commits.len()),
            );
            let after = delete_branch_spec(repo, name);
            &&& after.all_commits.contains_key(k) <==> repo.all_commits.contains_key(k)
                && !own.contains(k)
            &&& after.all_commits.contains_key(k) ==> after.all_commits[k] == repo.all_commits[k]
            &&& !has_branch(after.branches, name) <==> forall|i: int|
                0 <= i < repo.branches.len() && i != j ==> (#[trigger] repo.branches[i]).name
                    != name
        }),
{
    let j = choose|j: int| is_first_named(repo.branches, name, j);
    let witness = choose|j: int| is_first_named(repo.branches, name, j) && j != 0;
    assert(j == witness);
    let after = delete_branch_spec(repo, name);
    assert(after.branches == repo.branches.remove(j));
    if has_branch(after.branches, name) {
        let i = choose|i: int|
            0 <= i < after.branches.len() && (#[trigger] after.branches[i]).name == name;
        let orig = if i < j { i } else { i + 1 };
        assert(repo.branches[orig].name == name);
    } else {
        assert forall|i: int| 0 <= i < repo.branches.len() && i != j implies (
        #[trigger] repo.branches[i]).name != name by {
            let moved = if i < j { i } else { i - 1 };
            assert(after.branches[moved] == repo.branches[i]);
        }
    }
}

/// The identifiers of a list of commits, as a set.
pub open spec fn ids_of(chain: Seq<CommitView>) -> Set<u64> {
    chain.map_values(|c: CommitView| commit_id(c)).to_set()
}

/// The invariants of a repository: there is a master branch, it comes first
/// and starts at a commit without parent; the current branch exists; the
/// current commit is in the index; the index holds each commit under its own
/// identifier; no two branches share a name.
pub open spec fn well_formed(repo: RepositoryView) -> bool {
    &&& repo.branches.len() > 0
    &&& repo.branches[0].name == "master"@
    &&& repo.branches[0].first_commit.parent.is_none()
    &&& 0 <= repo.current_branch_id < repo.branches.len()
    &&& repo.all_commits.dom().finite()
    &&& repo.all_commits.contains_key(commit_id(repo.current_commit))
    &&& forall|k: u64|
        repo.all_commits.contains_key(k) ==> commit_id(#[trigger] repo.all_commits[k]) == k
    &&& forall|i: int, j: int|
        0 <= i < j < repo.branches.len() ==> (#[trigger] repo.branches[i]).name != (
        #[trigger] repo.branches[j]).name
}

/// The index that holds each commit of `commits` under its identifier; of two
/// commits with one identifier the later stays.
pub open spec fn index_of(commits: Seq<CommitView>) -> Map<u64, CommitView>
    decreases commits.len(),
{
    if commits.len() == 0 {
        Map::empty()
    } else {
        index_of(commits.drop_last()).insert(commit_id(commits.last()), commits.last())
    }
}

/// The commits of a list, each by its view.
pub open spec fn commit_views(commits: Seq<Commit>) -> Seq<CommitView> {
    commits.map_values(|c: Commit| c@)
}

/// An index made of a list of commits is finite and holds each commit under
/// its own identifier.
pub proof fn lemma_index_of_consistent(commits: Seq<CommitView>)
    ensures
        index_of(commits).dom().finite(),
        forall|k: u64|
            index_of(commits).contains_key(k) ==> commit_id(#[trigger] index_of(commits)[k]) == k,
    decreases commits.len(),
{
    if commits.len() > 0 {
        lemma_index_of_consistent(commits.drop_last());
    }
}

/// The repository after the branch called `name` was deleted: its own commits
/// are gone from the index, and the branch from the list. Master is never
/// deleted, and nothing changes where no branch has the name. The current
/// branch stays the current one; where it is the branch that was deleted,
/// master takes its place.
pub open spec fn delete_branch_spec(repo: RepositoryView, name: Seq<char>) -> RepositoryView {
    if exists|j: int| is_first_named(repo.branches, name, j) {
        let j = choose|j: int| is_first_named(repo.branches, name, j);
        if j == 0 {
            repo
        } else {
            RepositoryView {
                branches: repo.branches.remove(j),
                current_branch_id: if repo.current_branch_id > j {
                    repo.current_branch_id - 1
                } else if repo.current_branch_id == j {
                    0
                } else {
                    repo.current_branch_id
                },
                all_commits: repo.all_commits.remove_keys(
                    ids_of(
                        chain_of(repo.all_commits, repo.branches[j].last_commit, repo.all_commits.len()),
                    ),
                ),
                ..repo
            }
        }
    } else {
        repo
    }
}

/// The snapshots that are left after the branch called `name` was deleted.
pub open spec fn delete_branch_store_spec(
    repo: RepositoryView,
    containers: Map<u64, Seq<FileView>>,
    name: Seq<char>,
) -> Map<u64, Seq<FileView>> {
    if exists|j: int| is_first_named(repo.branches, name, j) {
        let j = choose|j: int| is_first_named(repo.branches, name, j);
        if j == 0 {
            containers
        } else {
            containers.remove_keys(
                ids_of(
                    chain_of(repo.all_commits, repo.branches[j].last_commit, repo.all_commits.len()),
                ),
            )
        }
    } else {
        containers
    }
}

/// What the check for uncommitted changes finds: nothing where the working
/// files are those of the current commit's snapshot, else the changed paths.
pub open spec fn uncommitted_spec(
    repo: RepositoryView,
    containers: Map<u64, Seq<FileView>>,
    working: Seq<FileView>,
) -> Seq<Seq<char>> {
    all_changed_spec(working, containers[commit_id(repo.current_commit)])
}

/// The repository: the branches, the current branch and commit, and the
/// index of all commits.
pub struct VcsRepository {
    branches: Vec<Branch>,
    current_branch_id: usize,
    all_commits: HashMap<u64, Commit>,
    root_dir: String,
    current_commit: Commit,
}

/// The branches of a list, each by its view.
pub open spec fn branch_views(branches: Seq<Branch>) -> Seq<BranchView> {
    branches.map_values(|b: Branch| b@)
}

impl View for VcsRepository {
    type V = RepositoryView;

    closed spec fn view(&self) -> RepositoryView {
        RepositoryView {
            branches: branch_views(self.branches@),
            current_branch_id: self.current_branch_id as int,
            all_commits: self.all_commits@.map_values(|c: Commit| c@),
            root_dir: self.root_dir@,
            current_commit: self.current_commit@,
        }
    }
}

impl VcsRepository {
    /// Whether the invariants of a repository hold of this one.
    pub open spec fn wf(&self) -> bool {
        well_formed(self@)
    }

    /// Creates a repository for the directory at `path`, which holds `files`:
    /// one branch, master, with one commit, "Initial commit", that has no
    /// parent and whose snapshot, `files`, is put into `store`.
    pub fn init(path: &str, files: &Vec<File>, store: &mut SnapshotStore) -> (repo: Self)
        ensures
            repo.wf(),
            repo@.current_commit == (CommitView {
                parent: None,
                message: "Initial commit"@,
                is_first_in_branch: true,
                root_path: path@,
                date: repo@.current_commit.date,
            }),
            repo@.branches == seq![
                BranchView {
                    first_commit: repo@.current_commit,
                    last_commit: repo@.current_commit,
                    name: "master"@,
                },
            ],
            repo@.current_branch_id == 0,
            repo@.all_commits == Map::<u64, CommitView>::empty().insert(
                commit_id(repo@.current_commit),
                repo@.current_commit,
            ),
            repo@.root_dir == path@,
            final(store)@ == old(store)@.insert(commit_id(repo@.current_commit), file_views(files@)),
    {
        let commit = Commit::init(path, "Initial commit", None, true);
        let hash = calculate_hash(&commit);
        store.store(hash, files);
        let current_branch = Branch::init_master(&commit);
        let mut branches: Vec<Branch> = Vec::new();
        branches.push(current_branch);
        let mut all_commits: HashMap<u64, Commit> = HashMap::new();
        all_commits.insert(hash, commit.clone());
        let repo = Self {
            current_commit: commit,
            current_branch_id: 0,
            branches,
            all_commits,
            root_dir: path.to_owned(),
        };
        assert(repo@.branches =~= seq![
            BranchView {
                first_commit: repo@.current_commit,
                last_commit: repo@.current_commit,
                name: "master"@,
            },
        ]);
        assert(repo@.all_commits =~= Map::<u64, CommitView>::empty().insert(
            commit_id(repo@.current_commit),
            repo@.current_commit,
        ));
        repo
    }

    /// Puts a repository together from its parts, as they were taken from
    /// one: the branches, the place of the current branch, the commits of the
    /// index, the tracked directory and the current commit. `None` where the
    /// parts break an invariant of a repository.
    pub fn from_parts(
        branches: Vec<Branch>,
        current_branch_id: usize,
        commits: &Vec<Commit>,
        root_dir: &str,
        current_commit: Commit,
    ) -> (made: Option<Self>)
        ensures
            ({
                let parts = RepositoryView {
                    branches: branch_views(branches@),
                    current_branch_id: current_branch_id as int,
                    all_commits: index_of(commit_views(commits@)),
                    root_dir: root_dir@,
                    current_commit: current_commit@,
                };
                match made {
                    Some(repo) => repo@ == parts && repo.wf(),
                    None => !well_formed(parts),
                }
            }),
    {
        let mut all_commits: HashMap<u64, Commit> = HashMap::new();
        let mut i: usize = 0;
        assert(commit_views(commits@).take(0) =~= Seq::<CommitView>::empty());
        assert(all_commits@.map_values(|c: Commit| c@) =~= index_of(
            commit_views(commits@).take(0),
        ));
        while i < commits.len()
            invariant
                i <= commits.len(),
                all_commits@.map_values(|c: Commit| c@) == index_of(
                    commit_views(commits@).take(i as int),
                ),
            decreases commits.len() - i,
        {
            let ghost before = all_commits@.map_values(|c: Commit| c@);
            all_commits.insert(calculate_hash(&commits[i]), commits[i].clone());
            proof {
                assert(commit_views(commits@).take(i + 1).drop_last() =~= commit_views(
                    commits@,
                ).take(i as int));
                assert(all_commits@.map_values(|c: Commit| c@) =~= before.insert(
                    commit_id(commits@[i as int]@),
                    commits@[i as int]@,
                ));
            }
            i += 1;
        }
        proof {
            assert(commit_views(commits@).take(commits.len() as int) =~= commit_views(commits@));
            lemma_index_of_consistent(commit_views(commits@));
        }
        if branches.len() == 0 || current_branch_id >= branches.len() {
            return None;
        }
        if !str_equal(branches[0].get_name(), "master") {
            return None;
        }
        if !branches[0].get_first_commit().is_initial() {
            return None;
        }
        if !all_commits.contains_key(&calculate_hash(&current_commit)) {
            return None;
        }
        let mut j: usize = 1;
        while j < branches.len()
            invariant
                1 <= j <= branches.len(),
                forall|a: int, b: int|
                    0 <= a < b < j ==> (#[trigger] branch_views(branches@)[a]).name != (
                    #[trigger] branch_views(branches@)[b]).name,
            decreases branches.len() - j,
        {
            let mut k: usize = 0;
            while k < j
                invariant
                    k <= j < branches.len(),
                    forall|a: int|
                        0 <= a < k ==> (#[trigger] branch_views(branches@)[a]).name
                            != branch_views(branches@)[j as int].name,
                decreases j - k,
            {
                if str_equal(branches[k].get_name(), branches[j].get_name()) {
                    assert(branch_views(branches@)[k as int].name == branch_views(
                        branches@,
                    )[j as int].name);
                    return None;
                }
                k += 1;
            }
            j += 1;
        }
        Some(
            Self {
                branches,
                current_branch_id,
                all_commits,
                root_dir: root_dir.to_owned(),
                current_commit,
            },
        )
    }

    /// Returns the branches, master first.
    pub fn get_branches(&self) -> (branches: &Vec<Branch>)
        ensures
            branch_views(branches@) == self@.branches,
    {
        &self.branches
    }

    /// Returns the commits of the index, in no particular order: one for
    /// each identifier.
    pub fn get_commits(&self) -> (commits: Vec<Commit>)
        ensures
            commits@.len() == self@.all_commits.len(),
            commit_views(commits@).to_set() == self@.all_commits.values(),
    {
        let mut commits: Vec<Commit> = Vec::new();
        let ghost all = vstd::std_specs::hash::spec_values_iter(&self.all_commits).remaining();
        for commit in it: self.all_commits.values()
            invariant
                it.seq() == all,
                commits@.len() == it.index(),
                forall|j: int| 0 <= j < commits@.len() ==> commits@[j]@ == (*all[j])@,
        {
            commits.push(commit.clone());
        }
        proof {
            let index = self.all_commits@;
            let listed = commit_views(commits@).to_set();
            assert(self@.all_commits.dom() =~= index.dom());
            assert forall|c: CommitView| listed.contains(c) implies self@.all_commits.values().contains(
                c,
            ) by {
                let j = choose|j: int| 0 <= j < commits@.len() && commit_views(commits@)[j] == c;
                assert(all.unref()[j] == *all[j]);
                assert(all.unref().to_set().contains(*all[j]));
                assert(index.values().contains(*all[j]));
                let k = choose|k: u64| index.contains_key(k) && index[k] == *all[j];
                assert(self@.all_commits.contains_key(k) && self@.all_commits[k] == c);
            }
            assert forall|c: CommitView| self@.all_commits.values().contains(c) implies listed.contains(
                c,
            ) by {
                let k = choose|k: u64|
                    self@.all_commits.contains_key(k) && self@.all_commits[k] == c;
                assert(index.values().contains(index[k]));
                assert(all.unref().to_set().contains(index[k]));
                let j = choose|j: int| 0 <= j < all.unref().len() && all.unref()[j] == index[k];
                assert(commit_views(commits@)[j] == c);
            }
            assert(listed =~= self@.all_commits.values());
        }
        commits
    }

    /// Returns the place of the current branch among the branches.
    pub fn get_current_branch_id(&self) -> (id: usize)
        ensures
            id == self@.current_branch_id,
    {
        self.current_branch_id
    }

    /// Returns the directory of the repository.
    pub fn get_dir(&self) -> (dir: &str)
        ensures
            dir@ == self@.root_dir,
    {
        self.root_dir.as_str()
    }

    /// Returns the current branch.
    pub fn get_current_branch(&self) -> (branch: &Branch)
        requires
            0 <= self@.current_branch_id < self@.branches.len(),
        ensures
            branch@ == self@.branches[self@.current_branch_id],
    {
        &self.branches[self.current_branch_id]
    }

    /// The index of a repository holds finitely many commits.
    pub proof fn lemma_index_finite(&self)
        ensures
            self@.all_commits.dom().finite(),
    {
        assert(self@.all_commits.dom() =~= self.all_commits@.dom());
    }

    /// Returns the number of commits in the index.
    pub fn commit_count(&self) -> (count: usize)
        ensures
            count == self@.all_commits.len(),
    {
        assert(self@.all_commits.dom() =~= self.all_commits@.dom());
        self.all_commits.len()
    }

    /// Returns the current commit.
    pub fn get_current_commit(&self) -> (commit: &Commit)
        ensures
            commit@ == self@.current_commit,
    {
        &self.current_commit
    }

    /// Returns the last commit of the current branch.
    pub fn get_last_branch_commit(&self) -> (commit: &Commit)
        requires
            0 <= self@.current_branch_id < self@.branches.len(),
        ensures
            commit@ == self@.branches[self@.current_branch_id].last_commit,
    {
        let branch = self.get_current_branch();
        branch.get_last_commit()
    }

    /// Returns the place of the first branch called `name`.
    fn find_branch(&self, name: &str) -> (place: Option<usize>)
        ensures
            match place {
                Some(j) => is_first_named(self@.branches, name@, j as int),
                None => !has_branch(self@.branches, name@),
            },
    {
        let mut j: usize = 0;
        while j < self.branches.len()
            invariant
                j <= self.branches.len(),
                forall|k: int| 0 <= k < j ==> (#[trigger] self@.branches[k]).name != name@,
            decreases self.branches.len() - j,
        {
            if str_equal(self.branches[j].get_name(), name) {
                return Some(j);
            }
            j += 1;
        }
        None
    }

    /// Returns the branch with the given name: the first, should several
    /// have it.
    pub fn get_branch_by_name(&self, name: &str) -> (found: Result<&Branch, VcsError>)
        ensures
            match found {
                Ok(branch) => exists|j: int|
                    is_first_named(self@.branches, name@, j) && branch@ == self@.branches[j],
                Err(e) => e == VcsError::UnknownBranch && !has_branch(self@.branches, name@),
            },
    {
        match self.find_branch(name) {
            Some(j) => Ok(&self.branches[j]),
            None => Err(VcsError::UnknownBranch),
        }
    }

    /// Returns the commit with the given identifier.
    pub fn get_commit_by_hash(&self, hash: u64) -> (found: Result<&Commit, VcsError>)
        ensures
            match found {
                Ok(commit) => self@.all_commits.contains_key(hash) && commit@
                    == self@.all_commits[hash],
                Err(e) => e == VcsError::UnknownCommit && !self@.all_commits.contains_key(hash),
            },
    {
        match self.all_commits.get(&hash) {
            None => Err(VcsError::UnknownCommit),
            Some(commit) => Ok(commit),
        }
    }

    /// Returns the place of the first branch whose first commit is `commit`.
    fn find_branch_from(&self, commit: &Commit) -> (place: Option<usize>)
        ensures
            match place {
                Some(j) => is_first_from(self@.branches, commit@, j as int),
                None => forall|j: int| !is_first_from(self@.branches, commit@, j),
            },
    {
        let mut j: usize = 0;
        while j < self.branches.len()
            invariant
                j <= self.branches.len(),
                forall|k: int|
                    0 <= k < j ==> (#[trigger] self@.branches[k]).first_commit != commit@,
            decreases self.branches.len() - j,
        {
            if *self.branches[j].get_first_commit() == *commit {
                return Some(j);
            }
            j += 1;
        }
        None
    }

    /// Returns the branch with the given first commit: the first, should
    /// several start there.
    pub fn get_branch_by_first_commit(&self, commit: &Commit) -> (found: Result<&Branch, VcsError>)
        ensures
            match found {
                Ok(branch) => exists|j: int|
                    is_first_from(self@.branches, commit@, j) && branch@ == self@.branches[j],
                Err(e) => e == VcsError::GraphCorrupt && forall|j: int|
                    !is_first_from(self@.branches, commit@, j),
            },
    {
        match self.find_branch_from(commit) {
            Some(j) => Ok(&self.branches[j]),
            None => Err(VcsError::GraphCorrupt),
        }
    }

    /// Returns the place of the branch that owns `commit`.
    fn find_branch_of(&self, commit: &Commit) -> (place: Option<usize>)
        ensures
            match place {
                Some(j) => branch_of(self@, commit@) == Some(j as int) && j < self@.branches.len(),
                None => branch_of(self@, commit@).is_none(),
            },
    {
        let mut fuel: usize = self.all_commits.len();
        let mut cur: &Commit = commit;
        assert(self@.all_commits.dom() =~= self.all_commits@.dom());
        loop
            invariant
                origin_of(self@.all_commits, commit@, self@.all_commits.len()) == origin_of(
                    self@.all_commits,
                    cur@,
                    fuel as nat,
                ),
            decreases fuel,
        {
            if cur.is_first() {
                return self.find_branch_from(cur);
            }
            if fuel == 0 {
                return None;
            }
            match cur.get_parent_hash() {
                Err(_) => {
                    return None;
                },
                Ok(parent) => match self.all_commits.get(&parent) {
                    None => {
                        return None;
                    },
                    Some(next) => {
                        cur = next;
                        fuel -= 1;
                    },
                },
            }
        }
    }

    /// Returns the branch that owns `commit`: the branch that starts at the
    /// branch-origin commit which `commit` leads back to along its parents.
    pub fn get_branch_by_commit(&self, commit: &Commit) -> (found: Result<&Branch, VcsError>)
        ensures
            match branch_of(self@, commit@) {
                Some(j) => found matches Ok(branch) && branch@ == self@.branches[j],
                None => found matches Err(VcsError::GraphCorrupt),
            },
    {
        match self.find_branch_of(commit) {
            Some(j) => Ok(&self.branches[j]),
            None => Err(VcsError::GraphCorrupt),
        }
    }

    /// Returns the place of the branch that has the name of `branch`.
    pub fn get_branch_id(&self, branch: &Branch) -> (found: Result<usize, VcsError>)
        ensures
            match found {
                Ok(j) => is_first_named(self@.branches, branch@.name, j as int),
                Err(e) => e == VcsError::UnknownBranch && !has_branch(self@.branches, branch@.name),
            },
    {
        match self.find_branch(branch.get_name()) {
            Some(j) => Ok(j),
            None => Err(VcsError::UnknownBranch),
        }
    }

    /// Returns the last commit of master.
    pub fn get_last_master_commit(&self) -> (commit: &Commit)
        requires
            self@.branches.len() > 0,
        ensures
            commit@ == self@.branches[0].last_commit,
    {
        self.branches[0].get_last_commit()
    }

    /// Checks whether a branch called `branch_name` exists.
    pub fn exists_branch(&self, branch_name: &str) -> (exists: bool)
        ensures
            exists == has_branch(self@.branches, branch_name@),
    {
        self.find_branch(branch_name).is_some()
    }

    /// Returns the current branch, to be changed in place.
    pub fn get_mut_current_branch(&mut self) -> (branch: &mut Branch)
        requires
            0 <= old(self)@.current_branch_id < old(self)@.branches.len(),
        ensures
            branch@ == old(self)@.branches[old(self)@.current_branch_id],
            final(self)@ == (RepositoryView {
                branches: old(self)@.branches.update(
                    old(self)@.current_branch_id,
                    final(branch)@,
                ),
                ..old(self)@
            }),
    {
        proof {
            assert forall|branches: Seq<Branch>, i: int, branch: Branch|
                0 <= i < branches.len() implies #[trigger] branch_views(
                branches.update(i, branch),
            ) == branch_views(branches).update(i, branch@) by {
                assert(branch_views(branches.update(i, branch)) =~= branch_views(branches).update(
                    i,
                    branch@,
                ));
            }
        }
        &mut self.branches[self.current_branch_id]
    }

    /// Changes the current commit.
    pub fn change_current_commit(&mut self, commit: &Commit)
        ensures
            final(self)@ == (RepositoryView { current_commit: commit@, ..old(self)@ }),
    {
        self.current_commit = commit.clone();
    }

    /// Changes the current branch to the one that has the name of `branch`.
    pub fn change_current_branch(&mut self, branch: &Branch) -> (changed: Result<(), VcsError>)
        ensures
            match changed {
                Ok(_) => is_first_named(
                    old(self)@.branches,
                    branch@.name,
                    final(self)@.current_branch_id,
                ) && final(self)@ == (RepositoryView {
                    current_branch_id: final(self)@.current_branch_id,
                    ..old(self)@
                }),
                Err(e) => e == VcsError::UnknownBranch && !has_branch(
                    old(self)@.branches,
                    branch@.name,
                ) && final(self)@ == old(self)@,
            },
    {
        match self.get_branch_id(branch) {
            Ok(id) => {
                self.current_branch_id = id;
                Ok(())
            },
            Err(e) => Err(e),
        }
    }

    /// Puts `commit` into the index, under its identifier.
    pub fn add_commit(&mut self, commit: &Commit)
        ensures
            final(self)@ == (RepositoryView {
                all_commits: old(self)@.all_commits.insert(commit_id(commit@), commit@),
                ..old(self)@
            }),
    {
        self.all_commits.insert(calculate_hash(commit), commit.clone());
        assert(self@.all_commits =~= old(self)@.all_commits.insert(commit_id(commit@), commit@));
    }

    /// Adds `branch` and moves to it: it becomes the current branch, and its
    /// last commit the current commit, which is put into the index.
    pub fn add_branch(&mut self, branch: &Branch)
        ensures
            final(self)@ == (RepositoryView {
                branches: old(self)@.branches.push(branch@),
                current_branch_id: old(self)@.branches.len() as int,
                all_commits: old(self)@.all_commits.insert(
                    commit_id(branch@.last_commit),
                    branch@.last_commit,
                ),
                current_commit: branch@.last_commit,
                ..old(self)@
            }),
    {
        self.branches.push(branch.clone());
        self.current_branch_id = self.branches.len() - 1;
        self.current_commit = branch.get_last_commit().clone();
        self.all_commits.insert(calculate_hash(&self.current_commit), self.current_commit.clone());
        assert(self@.branches =~= old(self)@.branches.push(branch@));
        assert(self@.all_commits =~= old(self)@.all_commits.insert(
            commit_id(branch@.last_commit),
            branch@.last_commit,
        ));
    }

    /// Lists the identifiers of the own commits of a branch that ends at
    /// `last`, last first.
    fn chain_ids(&self, last: &Commit) -> (ids: Vec<u64>)
        ensures
            ids@ == chain_of(self@.all_commits, last@, self@.all_commits.len()).map_values(
                |c: CommitView| commit_id(c),
            ),
    {
        let mut ids: Vec<u64> = Vec::new();
        let mut fuel: usize = self.all_commits.len();
        let mut cur: &Commit = last;
        let ghost commits = self@.all_commits;
        let ghost mut visited: Seq<CommitView> = Seq::empty();
        assert(self@.all_commits.dom() =~= self.all_commits@.dom());
        assert(visited + chain_of(commits, cur@, fuel as nat) =~= chain_of(
            commits,
            cur@,
            fuel as nat,
        ));
        loop
            invariant
                commits == self@.all_commits,
                chain_of(commits, last@, commits.len()) == visited + chain_of(
                    commits,
                    cur@,
                    fuel as nat,
                ),
                ids@ == visited.map_values(|c: CommitView| commit_id(c)),
            decreases fuel,
        {
            ids.push(calculate_hash(cur));
            proof {
                assert(ids@ =~= visited.push(cur@).map_values(|c: CommitView| commit_id(c)));
                assert(visited.push(cur@) =~= visited + seq![cur@]);
            }
            if cur.is_first() || fuel == 0 {
                return ids;
            }
            match cur.get_parent_hash() {
                Err(_) => {
                    return ids;
                },
                Ok(parent) => match self.all_commits.get(&parent) {
                    None => {
                        return ids;
                    },
                    Some(next) => {
                        proof {
                            assert(visited + (seq![cur@] + chain_of(
                                commits,
                                next@,
                                (fuel - 1) as nat,
                            )) =~= visited.push(cur@) + chain_of(
                                commits,
                                next@,
                                (fuel - 1) as nat,
                            ));
                            visited = visited.push(cur@);
                        }
                        cur = next;
                        fuel -= 1;
                    },
                },
            }
        }
    }

    /// Deletes the own commits of `branch`, and their snapshots.
    fn delete_all_commits(&mut self, branch: &Branch, store: &mut SnapshotStore)
        ensures
            final(self)@ == (RepositoryView {
                all_commits: old(self)@.all_commits.remove_keys(
                    ids_of(
                        chain_of(
                            old(self)@.all_commits,
                            branch@.last_commit,
                            old(self)@.all_commits.len(),
                        ),
                    ),
                ),
                ..old(self)@
            }),
            final(store)@ == old(store)@.remove_keys(
                ids_of(
                    chain_of(
                        old(self)@.all_commits,
                        branch@.last_commit,
                        old(self)@.all_commits.len(),
                    ),
                ),
            ),
    {
        let ids = self.chain_ids(branch.get_last_commit());
        let ghost gone = ids_of(
            chain_of(old(self)@.all_commits, branch@.last_commit, old(self)@.all_commits.len()),
        );
        let mut i: usize = 0;
        assert(self@.all_commits =~= old(self)@.all_commits.remove_keys(ids@.take(0).to_set()));
        assert(store@ =~= old(store)@.remove_keys(ids@.take(0).to_set()));
        while i < ids.len()
            invariant
                i <= ids.len(),
                self@ == (RepositoryView {
                    all_commits: old(self)@.all_commits.remove_keys(ids@.take(i as int).to_set()),
                    ..old(self)@
                }),
                store@ == old(store)@.remove_keys(ids@.take(i as int).to_set()),
            decreases ids.len() - i,
        {
            let id = ids[i];
            let ghost index = self@.all_commits;
            let ghost containers = store@;
            self.all_commits.remove(&id);
            store.delete(id);
            proof {
                assert(ids@.take(i + 1) =~= ids@.take(i as int).push(id));
                ids@.take(i as int).lemma_push_to_set_commute(id);
                assert(self@.all_commits =~= index.remove(id));
                assert(index.remove(id) =~= old(self)@.all_commits.remove_keys(
                    ids@.take(i + 1).to_set(),
                ));
                assert(containers.remove(id) =~= old(store)@.remove_keys(
                    ids@.take(i + 1).to_set(),
                ));
            }
            i += 1;
        }
        assert(ids@.take(ids.len() as int) =~= ids@);
    }

    /// Deletes the branch called `branch_name`: its own commits, from its last
    /// commit back to the commit it started with, leave the index, their
    /// snapshots leave `store`, and the branch leaves the list. Master stays.
    pub fn delete_branch(&mut self, branch_name: &str, store: &mut SnapshotStore)
        ensures
            final(self)@ == delete_branch_spec(old(self)@, branch_name@),
            final(store)@ == delete_branch_store_spec(old(self)@, old(store)@, branch_name@),
    {
        match self.find_branch(branch_name) {
            Some(ind) => {
                if ind != 0 {
                    let branch = self.branches[ind].clone();
                    self.delete_all_commits(&branch, store);
                    self.branches.remove(ind);
                    if self.current_branch_id > ind {
                        self.current_branch_id = self.current_branch_id - 1;
                    } else if self.current_branch_id == ind {
                        self.current_branch_id = 0;
                    }
                    assert(self@.branches =~= old(self)@.branches.remove(ind as int));
                }
            },
            None => {},
        }
    }

    /// Checks that the working files are those of the current commit's
    /// snapshot: fails with the changed paths where they are not.
    pub fn check_no_uncommited(&self, working_files: &Vec<File>, store: &SnapshotStore) -> (checked:
        Result<(), VcsError>)
        ensures
            match checked {
                Ok(_) => store@.contains_key(commit_id(self@.current_commit)) && uncommitted_spec(
                    self@,
                    store@,
                    file_views(working_files@),
                ).len() == 0,
                Err(VcsError::SnapshotNotFound) => !store@.contains_key(
                    commit_id(self@.current_commit),
                ),
                Err(VcsError::DirtyWorkingTree(paths)) => store@.contains_key(
                    commit_id(self@.current_commit),
                ) && path_views(paths@).len() > 0 && path_views(paths@) == uncommitted_spec(
                    self@,
                    store@,
                    file_views(working_files@),
                ),
                Err(_) => false,
            },
    {
        let commit_files = store.load(calculate_hash(&self.current_commit))?;
        let changed = all_changed_files(working_files, &commit_files);
        if !changed.is_empty() {
            return Err(VcsError::DirtyWorkingTree(changed));
        }
        Ok(())
    }
}

} // verus!
