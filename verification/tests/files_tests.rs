use vcs::library::files::File;

#[test]
fn test_file_init() {
    let name = "text_file.txt";
    let path = "./tests/test_data/text_file.txt";
    let data: Vec<u8> = vec![97, 98, 99];
    let file = File::init(name, path, data.clone());
    assert_eq!(file.get_name(), name);
    assert_eq!(file.get_path(), path);
    assert_eq!(file.get_data().clone(), data);
}

#[test]
fn files_are_the_same_entry_by_name_and_path() {
    let a = File::init("f", "./d/f", vec![1, 2]);
    let b = File::init("f", "./d/f", vec![3]);
    let other_path = File::init("f", "./e/f", vec![1, 2]);
    let other_name = File::init("g", "./d/f", vec![1, 2]);
    assert!(a.is_change_only_data(&b));
    assert!(b.is_change_only_data(&a));
    assert!(!a.is_change_only_data(&other_path));
    assert!(!a.is_change_only_data(&other_name));
}

#[test]
fn files_are_equal_by_identity_and_content() {
    let a = File::init("f", "./d/f", vec![1, 2]);
    assert!(a == File::init("f", "./d/f", vec![1, 2]));
    assert!(a != File::init("f", "./d/f", vec![1, 3]));
    assert!(a != File::init("f", "./d/f", vec![1]));
    assert!(a != File::init("f", "./d/f", vec![1, 2, 3]));
    assert!(a != File::init("g", "./d/f", vec![1, 2]));
    assert!(a != File::init("f", "./d/g", vec![1, 2]));
    assert!(a == a.clone());
}

#[test]
fn change_data_keeps_the_identity() {
    let mut file = File::init("f", "./d/f", vec![]);
    let new_data: Vec<u8> = vec![97];
    file.change_data(&new_data);
    assert_eq!(file.get_data().clone(), new_data);
    assert_eq!(file.get_name(), "f");
    assert_eq!(file.get_path(), "./d/f");
}

#[test]
fn default_file_is_empty() {
    let file = File::default();
    assert_eq!(file.get_name(), "");
    assert_eq!(file.get_path(), "");
    assert!(file.get_data().is_empty());
}
