use crate::library::commit::{Commit, CommitDate, CommitView};
use crate::library::error::VcsError;
use crate::library::files::FileView;
use crate::library::snapshot_store::SnapshotStore;
use crate::library::vcs_repository::VcsRepository;
use crate::utils::operation_hash::{calculate_hash, commit_id};
use crate::utils::work_with_commit_files::{
    added_files, added_spec, deleted_files, deleted_spec, modified_files, modified_spec,
    path_views, paths_of,
};
use vstd::prelude::*;

verus! {

/// One line of the history: a commit, and what it changed since its parent.
/// The first commit of the repository is marked `initial` and lists no
/// changes.
#[derive(Debug)]
pub struct LogEntry {
    pub hash: u64,
    pub date: CommitDate,
    pub message: String,
    pub initial: bool,
    pub added: Vec<String>,
    pub modified: Vec<String>,
    pub deleted: Vec<String>,
}

/// What a line of the history is, mathematically.
pub struct LogEntryView {
    pub hash: u64,
    pub date: CommitDate,
    pub message: Seq<char>,
    pub initial: bool,
    pub added: Seq<Seq<char>>,
    pub modified: Seq<Seq<char>>,
    pub deleted: Seq<Seq<char>>,
}

impl View for LogEntry {
    type V = LogEntryView;

    open spec fn view(&self) -> LogEntryView {
        LogEntryView {
            hash: self.hash,
            date: self.date,
            message: self.message@,
            initial: self.initial,
            added: path_views(self.added@),
            modified: path_views(self.modified@),
            deleted: path_views(self.deleted@),
        }
    }
}

/// The lines of a list, each by its view.
pub open spec fn entry_views(entries: Seq<LogEntry>) -> Seq<LogEntryView> {
    entries.map_values(|e: LogEntry| e@)
}

/// The line of the first commit of the repository.
pub open spec fn first_entry(c: CommitView) -> LogEntryView {
    LogEntryView {
        hash: commit_id(c),
        date: c.date,
        message: c.message,
        initial: true,
        added: Seq::empty(),
        modified: Seq::empty(),
        deleted: Seq::empty(),
    }
}

/// The line of a commit with the files `new`, whose parent has the files `old`.
pub open spec fn change_entry(
    c: CommitView,
    new: Seq<FileView>,
    old: Seq<FileView>,
) -> LogEntryView {
    LogEntryView {
        hash: commit_id(c),
        date: c.date,
        message: c.message,
        initial: false,
        added: paths_of(added_spec(new, old)),
        modified: paths_of(modified_spec(new, old)),
        deleted: paths_of(deleted_spec(new, old)),
    }
}

/// `done`, then the lines of `rest`; the error of `rest` where it is one.
pub open spec fn followed_by(
    done: Seq<LogEntryView>,
    rest: Result<Seq<LogEntryView>, VcsError>,
) -> Result<Seq<LogEntryView>, VcsError> {
    match rest {
        Ok(lines) => Ok(done + lines),
        Err(e) => Err(e),
    }
}

/// The history that leads to `c`: its line, then that of its parent, and so
/// on to the first commit of the repository. It fails where a parent is not
/// in the index, a snapshot is missing, or more than `fuel` parent links
/// would have to be followed.
pub open spec fn log_spec(
    commits: Map<u64, CommitView>,
    containers: Map<u64, Seq<FileView>>,
    c: CommitView,
    fuel: nat,
) -> Result<Seq<LogEntryView>, VcsError>
    decreases fuel,
{
    if c.parent.is_none() {
        Ok(seq![first_entry(c)])
    } else if fuel == 0 {
        Err(VcsError::GraphCorrupt)
    } else if !commits.contains_key(c.parent.unwrap()) {
        Err(VcsError::UnknownCommit)
    } else {
        let parent = commits[c.parent.unwrap()];
        if !containers.contains_key(commit_id(c)) || !containers.contains_key(commit_id(parent)) {
            Err(VcsError::SnapshotNotFound)
        } else {
            followed_by(
                seq![change_entry(c, containers[commit_id(c)], containers[commit_id(parent)])],
                log_spec(commits, containers, parent, (fuel - 1) as nat),
            )
        }
    }
}

/// Lists the history from the current commit back to the first commit of the
/// repository. The repository and the store are read, never changed.
pub fn log(vcs: &VcsRepository, store: &SnapshotStore) -> (found: Result<Vec<LogEntry>, VcsError>)
    requires
        vcs.wf(),
    ensures
        match log_spec(vcs@.all_commits, store@, vcs@.current_commit, vcs@.all_commits.len()) {
            Ok(lines) => found matches Ok(entries) && entry_views(entries@) == lines,
            Err(e) => found matches Err(error) && error == e,
        },
{
    let mut entries: Vec<LogEntry> = Vec::new();
    let mut fuel: usize = vcs.commit_count();
    let mut commit: &Commit = vcs.get_current_commit();
    let ghost whole = log_spec(
        vcs@.all_commits,
        store@,
        vcs@.current_commit,
        vcs@.all_commits.len(),
    );
    assert(entry_views(entries@) =~= Seq::<LogEntryView>::empty());
    assert(followed_by(entry_views(entries@), whole) == whole) by {
        if let Ok(lines) = whole {
            assert(Seq::<LogEntryView>::empty() + lines =~= lines);
        }
    }
    loop
        invariant
            whole == log_spec(
                vcs@.all_commits,
                store@,
                vcs@.current_commit,
                vcs@.all_commits.len(),
            ),
            whole == followed_by(
                entry_views(entries@),
                log_spec(vcs@.all_commits, store@, commit@, fuel as nat),
            ),
        decreases fuel,
    {
        let ghost done = entry_views(entries@);
        if commit.is_initial() {
            let entry = LogEntry {
                hash: calculate_hash(commit),
                date: commit.get_date(),
                message: commit.get_msg().to_owned(),
                initial: true,
                added: Vec::new(),
                modified: Vec::new(),
                deleted: Vec::new(),
            };
            proof {
                assert(entry@.added =~= Seq::<Seq<char>>::empty());
                assert(entry@.modified =~= Seq::<Seq<char>>::empty());
                assert(entry@.deleted =~= Seq::<Seq<char>>::empty());
                assert(entry_views(entries@.push(entry)) =~= done + seq![first_entry(commit@)]);
            }
            entries.push(entry);
            return Ok(entries);
        }
        if fuel == 0 {
            return Err(VcsError::GraphCorrupt);
        }
        let parent_hash = match commit.get_parent_hash() {
            Ok(parent_hash) => parent_hash,
            Err(e) => {
                return Err(e);
            },
        };
        let nxt_commit = vcs.get_commit_by_hash(parent_hash)?;

        let new_files = store.load(calculate_hash(commit))?;
        let old_files = store.load(calculate_hash(nxt_commit))?;

        let entry = LogEntry {
            hash: calculate_hash(commit),
            date: commit.get_date(),
            message: commit.get_msg().to_owned(),
            initial: false,
            added: added_files(&new_files, &old_files),
            modified: modified_files(&new_files, &old_files),
            deleted: deleted_files(&new_files, &old_files),
        };
        proof {
            let line = change_entry(
                commit@,
                store@[commit_id(commit@)],
                store@[commit_id(nxt_commit@)],
            );
            let rest = log_spec(vcs@.all_commits, store@, nxt_commit@, (fuel - 1) as nat);
            assert(entry@ == line);
            assert(entry_views(entries@.push(entry)) =~= done + seq![line]);
            if let Ok(lines) = rest {
                assert(done + (seq![line] + lines) =~= (done + seq![line]) + lines);
            }
        }
        entries.push(entry);
        commit = nxt_commit;
        fuel -= 1;
    }
}

} // verus!
