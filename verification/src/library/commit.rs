use crate::library::error::VcsError;
use crate::utils::operation_hash::{calculate_hash, commit_id};
use vstd::prelude::*;
use vstd::std_specs::cmp::PartialEqSpecImpl;
use vstd::string::StringExecFns;

verus! {

/// The moment a commit was made: seconds since the Unix epoch, and the
/// nanoseconds within that second.
#[derive(Clone, Copy, Debug, Hash, PartialEq, Eq, Structural)]
pub struct CommitDate {
    pub secs: i64,
    pub nanos: u32,
}

/// What a commit is, mathematically.
pub struct CommitView {
    pub parent: Option<u64>,
    pub message: Seq<char>,
    pub is_first_in_branch: bool,
    pub root_path: Seq<char>,
    pub date: CommitDate,
}

/// A commit: a record that nothing changes once it is made.
#[derive(Debug, Hash)]
pub struct Commit {
    parent: Option<u64>,
    message: String,
    is_first_in_branch: bool,
    root_path: String,
    date: CommitDate,
}

impl View for Commit {
    type V = CommitView;

    closed spec fn view(&self) -> CommitView {
        CommitView {
            parent: self.parent,
            message: self.message@,
            is_first_in_branch: self.is_first_in_branch,
            root_path: self.root_path@,
            date: self.date,
        }
    }
}

/// Reads the clock with `chrono::Local::now` and hands the moment back as the
/// seconds and nanoseconds that `DateTime::timestamp` and
/// `DateTime::timestamp_subsec_nanos` give. Nothing is claimed of the value.
#[verifier::external_body]
fn now() -> CommitDate {
    let moment = chrono::Local::now();
    CommitDate { secs: moment.timestamp(), nanos: moment.timestamp_subsec_nanos() }
}

impl Commit {
    /// Creates a commit made at the moment `date`.
    ///
    /// * `path` - the root of the repository
    /// * `msg` - the message of the commit
    /// * `parent` - the identifier of the parent, `None` for the first commit
    ///   of the repository
    /// * `is_first` - whether the commit is the first of its branch
    pub fn at(
        path: &str,
        msg: &str,
        parent: Option<u64>,
        is_first: bool,
        date: CommitDate,
    ) -> (commit: Self)
        ensures
            commit@ == (CommitView {
                parent,
                message: msg@,
                is_first_in_branch: is_first,
                root_path: path@,
                date,
            }),
    {
        Self {
            parent,
            message: msg.to_owned(),
            is_first_in_branch: is_first,
            root_path: path.to_owned(),
            date,
        }
    }

    /// Creates a commit made now: whatever the clock says, the other fields
    /// are the arguments.
    pub fn init(path: &str, msg: &str, parent: Option<u64>, is_first: bool) -> (commit: Self)
        ensures
            commit@ == (CommitView {
                parent,
                message: msg@,
                is_first_in_branch: is_first,
                root_path: path@,
                date: commit@.date,
            }),
    {
        Self::at(path, msg, parent, is_first, now())
    }

    /// Creates the commit that merges a branch into master, made at the
    /// moment `date`. `self` is the last commit of master and becomes the
    /// parent; `branch_name` names the branch, whose last commit is
    /// `_branch_commit`. The commit records the name alone: which files it
    /// stands for is decided where the merge is carried out.
    pub fn merge_at(
        &self,
        _branch_commit: &Self,
        branch_name: &str,
        date: CommitDate,
    ) -> (commit: Self)
        ensures
            commit@ == (CommitView {
                parent: Some(commit_id(self@)),
                message: "Merge branch "@ + branch_name@,
                is_first_in_branch: false,
                root_path: self@.root_path,
                date,
            }),
    {
        let mut msg = "Merge branch ".to_owned();
        msg.append(branch_name);
        Self {
            message: msg,
            parent: Some(calculate_hash(self)),
            is_first_in_branch: false,
            root_path: self.root_path.clone(),
            date,
        }
    }

    /// Creates the commit that merges a branch into master, made now:
    /// whatever the clock says, the other fields are those of `merge_at`.
    pub fn merge_init(&self, _branch_commit: &Self, branch_name: &str) -> (commit: Self)
        ensures
            commit@ == (CommitView {
                parent: Some(commit_id(self@)),
                message: "Merge branch "@ + branch_name@,
                is_first_in_branch: false,
                root_path: self@.root_path,
                date: commit@.date,
            }),
    {
        self.merge_at(_branch_commit, branch_name, now())
    }

    /// Returns the identifier of the parent.
    pub fn get_parent_hash(&self) -> (parent: Result<u64, VcsError>)
        ensures
            match self@.parent {
                Some(hash) => parent == Ok::<u64, VcsError>(hash),
                None => parent == Err::<u64, VcsError>(VcsError::NoParent),
            },
    {
        match self.parent {
            None => Err(VcsError::NoParent),
            Some(x) => Ok(x),
        }
    }

    /// Returns the message of the commit.
    pub fn get_msg(&self) -> (msg: &str)
        ensures
            msg@ == self@.message,
    {
        self.message.as_str()
    }

    /// Returns the moment the commit was made.
    pub fn get_date(&self) -> (date: CommitDate)
        ensures
            date == self@.date,
    {
        self.date
    }

    /// Returns the root of the repository that the commit belongs to.
    pub fn get_root_path(&self) -> (path: &str)
        ensures
            path@ == self@.root_path,
    {
        self.root_path.as_str()
    }

    /// Checks whether the commit is the first of its branch.
    pub fn is_first(&self) -> (first: bool)
        ensures
            first == self@.is_first_in_branch,
    {
        self.is_first_in_branch
    }

    /// Checks whether the commit is the first of the repository.
    pub fn is_initial(&self) -> (initial: bool)
        ensures
            initial == self@.parent.is_none(),
    {
        self.parent.is_none()
    }
}

impl Clone for Commit {
    fn clone(&self) -> (copy: Self)
        ensures
            copy@ == self@,
    {
        Self {
            parent: self.parent,
            message: self.message.clone(),
            is_first_in_branch: self.is_first_in_branch,
            root_path: self.root_path.clone(),
            date: self.date,
        }
    }
}

impl PartialEq for Commit {
    fn eq(&self, other: &Self) -> (equal: bool) {
        self.parent == other.parent && self.message == other.message && self.is_first_in_branch
            == other.is_first_in_branch && self.root_path == other.root_path && self.date
            == other.date
    }
}

impl PartialEqSpecImpl for Commit {
    open spec fn obeys_eq_spec() -> bool {
        true
    }

    open spec fn eq_spec(&self, other: &Self) -> bool {
        self@ == other@
    }
}

} // verus!
