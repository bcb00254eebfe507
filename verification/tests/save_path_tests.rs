use typewriter::save_path::save_target;

#[test]
fn extensionless_name_gets_txt() {
    assert_eq!(save_target(b"notes".to_vec()), b"notes.txt".to_vec());
}

#[test]
fn existing_extension_is_kept() {
    assert_eq!(save_target(b"notes.md".to_vec()), b"notes.md".to_vec());
}

#[test]
fn double_extension_is_kept() {
    assert_eq!(save_target(b"archive.tar.gz".to_vec()), b"archive.tar.gz".to_vec());
}

#[test]
fn trailing_dot_counts_as_extension() {
    assert_eq!(save_target(b"notes.".to_vec()), b"notes.".to_vec());
}

#[test]
fn dot_in_directory_does_not_count() {
    assert_eq!(save_target(b"dir.d/notes".to_vec()), b"dir.d/notes.txt".to_vec());
}

#[test]
fn dot_file_name_counts_as_extensionless() {
    assert_eq!(save_target(b".gitignore".to_vec()), b".gitignore.txt".to_vec());
}

#[test]
fn absolute_path_gets_txt() {
    assert_eq!(save_target(b"/home/u/out".to_vec()), b"/home/u/out.txt".to_vec());
}

#[test]
fn empty_file_name_is_left_alone() {
    assert_eq!(save_target(b"dir/".to_vec()), b"dir/".to_vec());
}

#[test]
fn parent_dir_reference_is_left_alone() {
    assert_eq!(save_target(b"a/..".to_vec()), b"a/..".to_vec());
}

#[test]
fn empty_path_is_left_alone() {
    assert_eq!(save_target(Vec::new()), Vec::<u8>::new());
}
