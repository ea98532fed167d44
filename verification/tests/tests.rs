use vcs::library::branch::Branch;
use vcs::library::commit::{Commit, CommitDate};
use vcs::library::error::{ErrorKind, VcsError};
use vcs::library::files::File;
use vcs::library::snapshot_store::SnapshotStore;
use vcs::library::vcs_repository::VcsRepository;
use vcs::utils::operation_hash::calculate_hash;
use vcs::utils::work_with_commit_files::merge_files;

fn file(root: &str, name: &str, data: &[u8]) -> File {
    File::init(name, &format!("{}/{}", root, name), data.to_vec())
}

fn date(secs: i64, nanos: u32) -> CommitDate {
    CommitDate { secs, nanos }
}

#[test]
fn test_commit_init() {
    let path = ".\\tests\\test_data\\repo_with_vcs1";
    let msg = "Hello";

    let commit = Commit::init(path, msg, None, true);
    assert_eq!(commit.get_msg(), "Hello");
    assert_eq!(commit.get_root_path(), path);
    assert!(commit.is_first());
    assert!(commit.is_initial());
    assert!(commit.get_parent_hash().is_err());

    let commit2 = Commit::init(path, msg, None, false);
    assert!(!commit2.is_first());
    assert!(commit2.is_initial());
    assert_ne!(calculate_hash(&commit), calculate_hash(&commit2));
}

#[test]
fn test_merge_init() {
    let path = ".\\tests\\test_data\\repo_with_vcs2";

    let files1 = vec![file(path, "aaaba.txt", &[97, 97, 97, 97])];
    let commit1 = Commit::init(path, "first", None, true);

    let files2 = vec![file(path, "add_file.txt", &[]), file(path, "aaaba.txt", &[98, 99, 100, 101])];
    let commit2 = Commit::init(path, "first", None, true);

    let commit3 = Commit::merge_init(&commit1, &commit2, "no-branch");

    assert!(commit3.get_parent_hash().is_ok());
    assert_eq!(commit3.get_parent_hash().unwrap(), calculate_hash(&commit1));
    assert_eq!(commit3.get_msg(), "Merge branch no-branch");
    assert!(!commit3.is_first());
    assert_eq!(commit3.get_root_path(), path);

    let merged = merge_files(files1, &files2);
    assert_eq!(
        merged,
        vec![file(path, "aaaba.txt", &[98, 99, 100, 101]), file(path, "add_file.txt", &[])]
    );
}

#[test]
fn test_add_branch() {
    let path = "./tests/test_data/repo";
    let mut store = SnapshotStore::new();

    let mut vcs = VcsRepository::init(path, &Vec::new(), &mut store);

    let commit = Commit::init(path, "my_commit", Some(calculate_hash(vcs.get_current_commit())), true);
    let hash = calculate_hash(&commit);

    let branch = Branch::init(&commit, "branch_name");
    assert_eq!(branch.get_name(), "branch_name");

    vcs.add_branch(&branch);

    assert_eq!(vcs.get_current_branch().clone(), branch);
    assert!(vcs.get_commit_by_hash(hash).is_ok());
    assert_eq!(vcs.get_commit_by_hash(hash).unwrap().clone(), commit);
    assert_eq!(vcs.get_current_commit().clone(), commit);
    assert_eq!(vcs.get_current_branch_id(), 1);
    assert_eq!(vcs.get_branches().len(), 2);
}

#[test]
fn test_delete_branch() {
    let path = "./tests/test_data/repo1";
    let mut store = SnapshotStore::new();

    let mut vcs = VcsRepository::init(path, &Vec::new(), &mut store);
    let root = calculate_hash(vcs.get_current_commit());

    let files = vec![file(path, "add_file.txt", &[]), file(path, "aaaa.txt", &[98, 99, 100, 101])];
    let commit = Commit::init(path, "commit", Some(calculate_hash(vcs.get_current_commit())), true);
    let hash1 = calculate_hash(&commit);
    store.store(hash1, &files);

    let branch = Branch::init(&commit, "branch_name");
    vcs.add_branch(&branch);

    let commit1 = Commit::init(path, "my_commit", Some(hash1), false);
    let hash2 = calculate_hash(&commit1);
    store.store(hash2, &files);

    vcs.get_mut_current_branch().add_commit(&commit1).unwrap();
    assert_eq!(vcs.get_current_branch().get_first_commit().clone(), commit);
    vcs.add_commit(&commit);
    assert_eq!(vcs.get_current_branch().get_first_commit().clone(), commit);
    assert_eq!(vcs.get_current_branch().get_last_commit().clone(), commit1);

    vcs.delete_branch("branch_name", &mut store);

    assert!(!store.contains(hash1));
    assert!(!store.contains(hash2));
    assert!(vcs.get_commit_by_hash(hash1).is_err());
    assert!(vcs.get_commit_by_hash(hash2).is_err());
    assert!(!vcs.exists_branch("branch_name"));
    assert!(store.contains(root));
    assert!(vcs.get_commit_by_hash(root).is_ok());
    assert_eq!(vcs.get_branches().len(), 1);
    assert_eq!(vcs.get_current_branch_id(), 0);
}

#[test]
fn delete_branch_removes_head_through_origin_and_nothing_before() {
    let path = "./repo";
    let mut store = SnapshotStore::new();
    let mut vcs = VcsRepository::init(path, &Vec::new(), &mut store);
    let root = vcs.get_current_commit().clone();
    let root_id = calculate_hash(&root);

    let second = Commit::at(path, "second", Some(root_id), false, date(10, 0));
    let second_id = calculate_hash(&second);
    vcs.get_mut_current_branch().add_commit(&second).unwrap();
    vcs.add_commit(&second);
    vcs.change_current_commit(&second);
    store.store(second_id, &Vec::new());

    let origin = Commit::at(path, "Initial commit b", Some(second_id), true, date(20, 0));
    let origin_id = calculate_hash(&origin);
    vcs.add_branch(&Branch::init(&origin, "b"));
    store.store(origin_id, &Vec::new());
    let mut ids = vec![origin_id];
    let mut parent = origin_id;
    for step in 0..3 {
        let next = Commit::at(path, "work", Some(parent), false, date(30 + step, 0));
        parent = calculate_hash(&next);
        vcs.get_mut_current_branch().add_commit(&next).unwrap();
        vcs.add_commit(&next);
        vcs.change_current_commit(&next);
        store.store(parent, &Vec::new());
        ids.push(parent);
    }
    assert_eq!(vcs.commit_count(), 6);

    let master = vcs.get_branch_by_name("master").unwrap().clone();
    vcs.change_current_branch(&master).unwrap();
    vcs.change_current_commit(&second);
    vcs.delete_branch("b", &mut store);

    for id in ids {
        assert!(vcs.get_commit_by_hash(id).is_err());
        assert!(!store.contains(id));
    }
    assert_eq!(vcs.commit_count(), 2);
    assert_eq!(vcs.get_commit_by_hash(root_id).unwrap().clone(), root);
    assert_eq!(vcs.get_commit_by_hash(second_id).unwrap().clone(), second);
    assert!(store.contains(root_id) && store.contains(second_id));
    assert!(!vcs.exists_branch("b"));
    assert_eq!(vcs.get_current_branch().get_name(), "master");
}

#[test]
fn delete_branch_keeps_master_and_ignores_unknown_names() {
    let mut store = SnapshotStore::new();
    let mut vcs = VcsRepository::init("./repo", &Vec::new(), &mut store);
    let root_id = calculate_hash(vcs.get_current_commit());

    vcs.delete_branch("master", &mut store);
    vcs.delete_branch("nothing", &mut store);

    assert!(vcs.exists_branch("master"));
    assert_eq!(vcs.get_branches().len(), 1);
    assert!(vcs.get_commit_by_hash(root_id).is_ok());
    assert!(store.contains(root_id));
}

#[test]
fn delete_branch_moves_the_current_branch_along() {
    let path = "./repo";
    let mut store = SnapshotStore::new();
    let mut vcs = VcsRepository::init(path, &Vec::new(), &mut store);
    let root_id = calculate_hash(vcs.get_current_commit());
    let first = Commit::at(path, "Initial commit one", Some(root_id), true, date(1, 0));
    let second = Commit::at(path, "Initial commit two", Some(root_id), true, date(2, 0));
    vcs.add_branch(&Branch::init(&first, "one"));
    vcs.add_branch(&Branch::init(&second, "two"));
    assert_eq!(vcs.get_current_branch_id(), 2);

    vcs.delete_branch("one", &mut store);

    assert_eq!(vcs.get_current_branch_id(), 1);
    assert_eq!(vcs.get_current_branch().get_name(), "two");
    assert!(vcs.get_commit_by_hash(calculate_hash(&first)).is_err());
    assert!(vcs.get_commit_by_hash(calculate_hash(&second)).is_ok());
}

#[test]
fn commit_identifier_depends_on_every_field_and_nothing_else() {
    let base = Commit::at("./repo", "msg", Some(7), false, date(100, 5));
    let same = Commit::at("./repo", "msg", Some(7), false, date(100, 5));
    assert_eq!(calculate_hash(&base), calculate_hash(&same));
    assert_eq!(calculate_hash(&base), calculate_hash(&base.clone()));

    let others = vec![
        Commit::at("./repo2", "msg", Some(7), false, date(100, 5)),
        Commit::at("./repo", "msg2", Some(7), false, date(100, 5)),
        Commit::at("./repo", "msg", Some(8), false, date(100, 5)),
        Commit::at("./repo", "msg", None, false, date(100, 5)),
        Commit::at("./repo", "msg", Some(0), false, date(100, 5)),
        Commit::at("./repo", "msg", Some(7), true, date(100, 5)),
        Commit::at("./repo", "msg", Some(7), false, date(101, 5)),
        Commit::at("./repo", "msg", Some(7), false, date(-100, 5)),
        Commit::at("./repo", "msg", Some(7), false, date(100, 6)),
        Commit::at("./repom", "sg", Some(7), false, date(100, 5)),
    ];
    for other in others.iter() {
        assert_ne!(calculate_hash(&base), calculate_hash(other));
        assert!(base != *other);
    }
    assert_ne!(
        calculate_hash(&Commit::at("", "", None, false, date(0, 0))),
        calculate_hash(&Commit::at("", "", None, false, date(-1, 0)))
    );
    assert_ne!(
        calculate_hash(&Commit::at("", "", None, false, date(i64::MIN, 0))),
        calculate_hash(&Commit::at("", "", None, false, date(i64::MAX, 0)))
    );
}

#[test]
fn commit_identifier_is_stable() {
    let commit = Commit::at("./repo", "Initial commit", None, true, date(1_700_000_000, 123));
    let first = calculate_hash(&commit);
    for _ in 0..10 {
        assert_eq!(calculate_hash(&commit), first);
    }
}

#[test]
fn commit_getters_give_back_the_parts() {
    let commit = Commit::at("./repo", "msg", Some(42), true, date(-3, 999_999_999));
    assert_eq!(commit.get_parent_hash().unwrap(), 42);
    assert_eq!(commit.get_msg(), "msg");
    assert_eq!(commit.get_root_path(), "./repo");
    assert_eq!(commit.get_date(), date(-3, 999_999_999));
    assert!(commit.is_first());
    assert!(!commit.is_initial());

    let root = Commit::at("./repo", "msg", None, true, date(0, 0));
    assert!(matches!(root.get_parent_hash(), Err(VcsError::NoParent)));
    assert!(root.is_initial());
}

#[test]
fn merge_at_names_the_branch_and_follows_master() {
    let master = Commit::at("./repo", "head", Some(1), false, date(5, 0));
    let branch = Commit::at("./other", "tip", Some(2), false, date(6, 0));
    let merged = master.merge_at(&branch, "feature", date(7, 1));
    assert_eq!(merged.get_msg(), "Merge branch feature");
    assert_eq!(merged.get_parent_hash().unwrap(), calculate_hash(&master));
    assert_eq!(merged.get_root_path(), "./repo");
    assert_eq!(merged.get_date(), date(7, 1));
    assert!(!merged.is_first());
    assert_eq!(master.merge_at(&branch, "", date(7, 1)).get_msg(), "Merge branch ");
}

#[test]
fn branch_appends_only_children_of_its_head() {
    let first = Commit::at("./repo", "first", None, true, date(1, 0));
    let mut branch = Branch::init_master(&first);
    assert_eq!(branch.get_name(), "master");
    assert_eq!(branch.get_first_commit().clone(), first);
    assert_eq!(branch.get_last_commit().clone(), first);

    let stranger = Commit::at("./repo", "stranger", Some(12345), false, date(2, 0));
    let result = branch.add_commit(&stranger);
    assert!(matches!(result, Err(VcsError::NotAChild)));
    assert_eq!(branch.get_last_commit().clone(), first);

    let orphan = Commit::at("./repo", "orphan", None, false, date(2, 0));
    assert!(matches!(branch.add_commit(&orphan), Err(VcsError::NotAChild)));

    let child = Commit::at("./repo", "child", Some(calculate_hash(&first)), false, date(3, 0));
    assert!(branch.add_commit(&child).is_ok());
    assert_eq!(branch.get_last_commit().clone(), child);
    assert_eq!(branch.get_first_commit().clone(), first);
}

#[test]
fn branch_from_parts_holds_the_parts() {
    let first = Commit::at("./repo", "first", None, true, date(1, 0));
    let last = Commit::at("./repo", "last", Some(9), false, date(2, 0));
    let branch = Branch::from_parts(first.clone(), last.clone(), "side");
    assert_eq!(branch.get_name(), "side");
    assert_eq!(branch.get_first_commit().clone(), first);
    assert_eq!(branch.get_last_commit().clone(), last);
    assert!(branch == branch.clone());
    assert!(branch != Branch::init(&first, "side"));
}

#[test]
fn store_round_trip_gives_back_what_was_stored() {
    let mut store = SnapshotStore::new();
    let files = vec![file("./repo", "a", &[1, 2, 3]), file("./repo", "b", &[])];
    store.store(7, &files);
    assert_eq!(store.load(7).unwrap(), files);
    assert!(store.contains(7));

    let other = vec![file("./repo", "c", &[9])];
    store.store(8, &other);
    assert_eq!(store.load(7).unwrap(), files);
    assert_eq!(store.load(8).unwrap(), other);

    store.store(7, &other);
    assert_eq!(store.load(7).unwrap(), other);

    store.store(9, &Vec::new());
    assert!(store.load(9).unwrap().is_empty());
}

#[test]
fn store_load_of_a_missing_snapshot_fails() {
    let store = SnapshotStore::new();
    let error = store.load(1).unwrap_err();
    assert!(matches!(error, VcsError::SnapshotNotFound));
    assert_eq!(error.kind(), ErrorKind::StorageFailure);
    assert!(!store.contains(1));
}

#[test]
fn store_delete_is_idempotent() {
    let mut store = SnapshotStore::new();
    store.store(1, &vec![file("./repo", "a", &[1])]);
    store.store(2, &vec![file("./repo", "b", &[2])]);
    store.delete(1);
    assert!(!store.contains(1));
    assert!(store.load(1).is_err());
    store.delete(1);
    store.delete(55);
    assert!(!store.contains(1));
    assert_eq!(store.load(2).unwrap(), vec![file("./repo", "b", &[2])]);
}

#[test]
fn repository_lookups() {
    let path = "./repo";
    let mut store = SnapshotStore::new();
    let mut vcs = VcsRepository::init(path, &Vec::new(), &mut store);
    let root = vcs.get_current_commit().clone();
    let root_id = calculate_hash(&root);

    assert_eq!(vcs.get_dir(), path);
    assert_eq!(vcs.get_last_master_commit().clone(), root);
    assert_eq!(vcs.get_last_branch_commit().clone(), root);
    assert!(vcs.exists_branch("master"));
    assert!(!vcs.exists_branch("Master"));
    assert!(matches!(vcs.get_branch_by_name("x"), Err(VcsError::UnknownBranch)));
    assert!(matches!(vcs.get_commit_by_hash(root_id.wrapping_add(1)), Err(VcsError::UnknownCommit)));
    assert_eq!(vcs.get_branch_by_first_commit(&root).unwrap().get_name(), "master");

    let origin = Commit::at(path, "Initial commit b", Some(root_id), true, date(1, 0));
    let branch = Branch::init(&origin, "b");
    vcs.add_branch(&branch);
    let next = Commit::at(path, "next", Some(calculate_hash(&origin)), false, date(2, 0));
    vcs.get_mut_current_branch().add_commit(&next).unwrap();
    vcs.add_commit(&next);

    assert_eq!(vcs.get_branch_by_commit(&next).unwrap().get_name(), "b");
    assert_eq!(vcs.get_branch_by_commit(&origin).unwrap().get_name(), "b");
    assert_eq!(vcs.get_branch_by_commit(&root).unwrap().get_name(), "master");
    assert_eq!(vcs.get_branch_id(&branch).unwrap(), 1);
    assert_eq!(vcs.get_branch_id(&Branch::init(&root, "master")).unwrap(), 0);
    assert!(matches!(vcs.get_branch_id(&Branch::init(&root, "zzz")), Err(VcsError::UnknownBranch)));

    let stray = Commit::at(path, "stray", Some(999), false, date(3, 0));
    let error = vcs.get_branch_by_commit(&stray).unwrap_err();
    assert!(matches!(error, VcsError::GraphCorrupt));
    assert_eq!(error.kind(), ErrorKind::GraphCorrupt);
    let orphan = Commit::at(path, "orphan", None, false, date(3, 0));
    assert!(matches!(vcs.get_branch_by_commit(&orphan), Err(VcsError::GraphCorrupt)));
    let unowned = Commit::at(path, "unowned", None, true, date(3, 0));
    assert!(matches!(vcs.get_branch_by_first_commit(&unowned), Err(VcsError::GraphCorrupt)));
    assert!(matches!(vcs.get_branch_by_commit(&unowned), Err(VcsError::GraphCorrupt)));

    let master = vcs.get_branch_by_name("master").unwrap().clone();
    assert!(vcs.change_current_branch(&master).is_ok());
    assert_eq!(vcs.get_current_branch_id(), 0);
    let unknown = Branch::init(&root, "unknown");
    assert!(matches!(vcs.change_current_branch(&unknown), Err(VcsError::UnknownBranch)));
    assert_eq!(vcs.get_current_branch_id(), 0);
}

#[test]
fn parent_walk_ends_on_a_cycle() {
    let path = "./repo";
    let mut store = SnapshotStore::new();
    let mut vcs = VcsRepository::init(path, &Vec::new(), &mut store);
    let looped = Commit::at(path, "loop", Some(0), false, date(1, 0));
    let id = calculate_hash(&looped);
    let own_parent = Commit::at(path, "loop", Some(id), false, date(1, 0));
    vcs.add_commit(&looped);
    vcs.add_commit(&own_parent);
    let points_back = Commit::at(path, "back", Some(calculate_hash(&own_parent)), false, date(2, 0));
    assert!(matches!(vcs.get_branch_by_commit(&points_back), Err(VcsError::GraphCorrupt)));
}

#[test]
fn repository_parts_round_trip() {
    let path = "./repo";
    let mut store = SnapshotStore::new();
    let mut vcs = VcsRepository::init(path, &Vec::new(), &mut store);
    let root_id = calculate_hash(vcs.get_current_commit());
    let origin = Commit::at(path, "Initial commit b", Some(root_id), true, date(1, 0));
    vcs.add_branch(&Branch::init(&origin, "b"));

    let commits = vcs.get_commits();
    assert_eq!(commits.len(), 2);
    assert!(commits.contains(&origin));
    assert!(commits.contains(vcs.get_last_master_commit()));

    let copy = VcsRepository::from_parts(
        vcs.get_branches().clone(),
        vcs.get_current_branch_id(),
        &commits,
        vcs.get_dir(),
        vcs.get_current_commit().clone(),
    )
    .unwrap();
    assert_eq!(copy.get_branches(), vcs.get_branches());
    assert_eq!(copy.get_current_branch_id(), 1);
    assert_eq!(copy.get_current_commit(), vcs.get_current_commit());
    assert_eq!(copy.get_dir(), path);
    assert_eq!(copy.commit_count(), 2);
    assert_eq!(copy.get_commit_by_hash(root_id).unwrap(), vcs.get_commit_by_hash(root_id).unwrap());
}

#[test]
fn repository_from_parts_refuses_broken_parts() {
    let path = "./repo";
    let root = Commit::at(path, "Initial commit", None, true, date(0, 0));
    let child = Commit::at(path, "child", Some(calculate_hash(&root)), true, date(1, 0));
    let master = Branch::init_master(&root);
    let side = Branch::init(&child, "side");
    let commits = vec![root.clone(), child.clone()];
    let good = || vec![master.clone(), side.clone()];

    assert!(VcsRepository::from_parts(good(), 1, &commits, path, child.clone()).is_some());
    assert!(VcsRepository::from_parts(Vec::new(), 0, &commits, path, root.clone()).is_none());
    assert!(VcsRepository::from_parts(good(), 2, &commits, path, root.clone()).is_none());
    assert!(VcsRepository::from_parts(vec![side.clone(), master.clone()], 0, &commits, path, root.clone()).is_none());
    assert!(VcsRepository::from_parts(vec![Branch::init_master(&child)], 0, &commits, path, root.clone()).is_none());
    assert!(VcsRepository::from_parts(vec![master.clone(), side.clone(), side.clone()], 0, &commits, path, root.clone()).is_none());
    assert!(VcsRepository::from_parts(good(), 0, &vec![root.clone()], path, child.clone()).is_none());
    assert!(VcsRepository::from_parts(good(), 0, &Vec::new(), path, root.clone()).is_none());
}

#[test]
fn check_no_uncommited_reports_the_changed_paths() {
    let path = "./repo";
    let mut store = SnapshotStore::new();
    let files = vec![file(path, "a", &[1]), file(path, "b", &[2])];
    let vcs = VcsRepository::init(path, &files, &mut store);

    assert!(vcs.check_no_uncommited(&files, &store).is_ok());
    let reordered = vec![file(path, "b", &[2]), file(path, "a", &[1])];
    assert!(vcs.check_no_uncommited(&reordered, &store).is_ok());

    let working = vec![file(path, "a", &[9]), file(path, "c", &[3])];
    match vcs.check_no_uncommited(&working, &store) {
        Err(VcsError::DirtyWorkingTree(paths)) => {
            assert_eq!(paths, vec!["./repo/c".to_string(), "./repo/a".to_string(), "./repo/b".to_string()]);
        }
        other => panic!("unexpected {:?}", other),
    }
    let empty = SnapshotStore::new();
    assert!(matches!(vcs.check_no_uncommited(&files, &empty), Err(VcsError::SnapshotNotFound)));
}

#[test]
fn error_kinds_and_messages() {
    let all = vec![
        (VcsError::NotAtHead, ErrorKind::Validation, "Current commit not last"),
        (VcsError::NoChanges, ErrorKind::Validation, "No changes"),
        (VcsError::DirtyWorkingTree(Vec::new()), ErrorKind::DirtyWorkingTree, "uncommited files"),
        (VcsError::UnknownCommit, ErrorKind::NotFound, "No commit with this hash"),
        (VcsError::UnknownBranch, ErrorKind::NotFound, "No branch with this name"),
        (VcsError::NotOnMaster, ErrorKind::Validation, "Current branch is not master"),
        (VcsError::BranchExists, ErrorKind::Validation, "Branch exists"),
        (VcsError::NotOnMasterHead, ErrorKind::Validation, "Current commit no master last commit"),
        (VcsError::MergeConflict(Vec::new()), ErrorKind::MergeConflict, "Aborting"),
        (VcsError::GraphCorrupt, ErrorKind::GraphCorrupt, "No branch with given first commit"),
        (VcsError::NoParent, ErrorKind::Validation, "No parent in branch_commit"),
        (
            VcsError::NotAChild,
            ErrorKind::Validation,
            "Commit does not follow the last commit of the branch",
        ),
        (VcsError::SnapshotNotFound, ErrorKind::StorageFailure, "No dir with this path-commit"),
    ];
    for (error, kind, message) in all {
        assert_eq!(error.kind(), kind);
        assert_eq!(error.message(), message);
    }
}
