use vcs::library::files::File;
use vcs::utils::work_with_commit_files::{
    added_files, added_files_with_data, all_changed_files, both_changed, deleted_files,
    merge_files, modified_files, modified_files_with_data,
};

fn file(name: &str, data: &[u8]) -> File {
    File::init(name, &format!("./repo/{}", name), data.to_vec())
}

fn path(name: &str) -> String {
    format!("./repo/{}", name)
}

#[test]
fn added_lists_new_identities_in_order() {
    let old = vec![file("a", b"1"), file("b", b"2")];
    let new = vec![file("c", b"3"), file("a", b"9"), file("d", b"4")];
    assert_eq!(added_files(&new, &old), vec![path("c"), path("d")]);
    let with_data = added_files_with_data(&new, &old);
    assert_eq!(with_data, vec![file("c", b"3"), file("d", b"4")]);
}

#[test]
fn modified_lists_same_identity_with_other_content() {
    let old = vec![file("a", b"1"), file("b", b"2"), file("c", b"3")];
    let new = vec![file("c", b"3"), file("b", b"22"), file("a", b""), file("z", b"0")];
    assert_eq!(modified_files(&new, &old), vec![path("b"), path("a")]);
    let with_data = modified_files_with_data(&new, &old);
    assert_eq!(with_data, vec![file("b", b"22"), file("a", b"")]);
}

#[test]
fn deleted_lists_old_identities_that_are_gone() {
    let old = vec![file("a", b"1"), file("b", b"2"), file("c", b"3")];
    let new = vec![file("b", b"2")];
    assert_eq!(deleted_files(&new, &old), vec![path("a"), path("c")]);
}

#[test]
fn same_path_with_other_name_is_another_entry() {
    let old = vec![File::init("a", "./repo/x", vec![1])];
    let new = vec![File::init("b", "./repo/x", vec![1])];
    assert_eq!(added_files(&new, &old), vec!["./repo/x".to_string()]);
    assert_eq!(deleted_files(&new, &old), vec!["./repo/x".to_string()]);
    assert!(modified_files(&new, &old).is_empty());
}

#[test]
fn all_changed_is_added_then_modified_then_deleted() {
    let old = vec![file("a", b"1"), file("b", b"2"), file("c", b"3")];
    let new = vec![file("b", b"x"), file("n", b"4"), file("c", b"3")];
    assert_eq!(all_changed_files(&new, &old), vec![path("n"), path("b"), path("a")]);
}

#[test]
fn nothing_changed_between_equal_lists_in_any_order() {
    let old = vec![file("a", b"1"), file("b", b"2")];
    let new = vec![file("b", b"2"), file("a", b"1")];
    assert!(all_changed_files(&new, &old).is_empty());
    assert!(all_changed_files(&Vec::new(), &Vec::new()).is_empty());
}

#[test]
fn modification_goes_by_the_first_entry_of_the_old_list() {
    let old = vec![file("a", b"1"), file("a", b"2")];
    assert_eq!(modified_files(&vec![file("a", b"2")], &old), vec![path("a")]);
    assert!(modified_files(&vec![file("a", b"1")], &old).is_empty());
}

#[test]
fn both_changed_finds_nothing_where_sides_touch_other_files() {
    let main = vec![file("x", b"x0"), file("y", b"y0")];
    let side1 = vec![file("x", b"x0"), file("y", b"y1")];
    let side2 = vec![file("x", b"x1"), file("y", b"y0")];
    assert!(both_changed(&main, &side1, &side2).is_empty());
}

#[test]
fn both_changed_lists_files_modified_differently() {
    let main = vec![file("x", b"x0"), file("y", b"y0"), file("z", b"z0")];
    let side1 = vec![file("x", b"x1"), file("y", b"y0"), file("z", b"z1")];
    let side2 = vec![file("x", b"x2"), file("y", b"y2"), file("z", b"z0")];
    assert_eq!(both_changed(&main, &side1, &side2), vec![path("x")]);
}

#[test]
fn both_changed_accepts_the_same_modification_on_both_sides() {
    let main = vec![file("x", b"x0"), file("y", b"y0")];
    let side1 = vec![file("x", b"same"), file("y", b"a")];
    let side2 = vec![file("y", b"b"), file("x", b"same")];
    assert_eq!(both_changed(&main, &side1, &side2), vec![path("y")]);
}

#[test]
fn both_changed_lists_files_added_differently() {
    let main = vec![file("x", b"x0")];
    let side1 = vec![file("x", b"x0"), file("n", b"1"), file("m", b"same")];
    let side2 = vec![file("x", b"x0"), file("m", b"same"), file("n", b"2")];
    assert_eq!(both_changed(&main, &side1, &side2), vec![path("n")]);
}

#[test]
fn both_changed_lists_files_deleted_on_one_side_only() {
    let main = vec![file("a", b"1"), file("b", b"2"), file("c", b"3")];
    let side1 = vec![file("b", b"2"), file("c", b"3")];
    let side2 = vec![file("a", b"1"), file("b", b"2")];
    assert_eq!(both_changed(&main, &side1, &side2), vec![path("a"), path("c")]);
    let both_gone = vec![file("b", b"2")];
    assert!(both_changed(&main, &both_gone, &both_gone).is_empty());
}

#[test]
fn both_changed_orders_modified_added_deleted() {
    let main = vec![file("m", b"0"), file("d", b"0")];
    let side1 = vec![file("m", b"1"), file("n", b"1")];
    let side2 = vec![file("n", b"2"), file("d", b"0"), file("m", b"2")];
    assert_eq!(both_changed(&main, &side1, &side2), vec![path("m"), path("n"), path("d")]);
}

#[test]
fn both_changed_names_a_twice_modified_path_once() {
    let main = vec![file("x", b"0"), file("q", b"0")];
    let side1 = vec![file("x", b"1"), file("x", b"2"), file("q", b"1")];
    let side2 = vec![file("x", b"3")];
    assert_eq!(both_changed(&main, &side1, &side2), vec![path("x"), path("q")]);
}

#[test]
fn merge_files_takes_what_the_branch_added_and_modified() {
    let master = vec![file("a", b"aaaa"), file("keep", b"k")];
    let branch = vec![file("a", b"bcde"), file("add_file.txt", b""), file("keep", b"k")];
    let merged = merge_files(master, &branch);
    assert_eq!(
        merged,
        vec![file("a", b"bcde"), file("keep", b"k"), file("add_file.txt", b"")]
    );
}

#[test]
fn merge_files_keeps_what_only_master_has() {
    let master = vec![file("only_master", b"m"), file("x", b"0")];
    let branch = vec![file("x", b"0")];
    let merged = merge_files(master, &branch);
    assert_eq!(merged, vec![file("only_master", b"m"), file("x", b"0")]);
    assert!(merge_files(Vec::new(), &Vec::new()).is_empty());
}
