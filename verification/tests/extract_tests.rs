use nimble::extract::{vet_entry, ExtractError, MAX_ENTRY_SIZE};

#[test]
fn plain_entry_lands_in_workspace() {
    let dest = vet_entry("src/main.rs", 10, "/data/build/b1").unwrap();
    assert_eq!(dest, "/data/build/b1/src/main.rs");
}

#[test]
fn current_dir_component_is_permitted() {
    let dest = vet_entry("./file", 10, "/ws").unwrap();
    assert_eq!(dest, "/ws/file");
}

#[test]
fn parent_component_is_refused() {
    let err = vet_entry("../anything", 10, "/ws").unwrap_err();
    assert_eq!(err, ExtractError::UnsafePath("../anything".to_string()));
}

#[test]
fn interior_parent_component_is_refused() {
    let err = vet_entry("a/../b", 10, "/ws").unwrap_err();
    assert_eq!(err, ExtractError::UnsafePath("a/../b".to_string()));
}

#[test]
fn absolute_path_is_refused() {
    let err = vet_entry("/etc/passwd", 10, "/ws").unwrap_err();
    assert_eq!(err, ExtractError::UnsafePath("/etc/passwd".to_string()));
}

#[test]
fn repeated_separators_are_collapsed() {
    let dest = vet_entry("a//b/", 10, "/ws").unwrap();
    assert_eq!(dest, "/ws/a/b");
}

#[test]
fn dotted_names_are_plain_names() {
    let dest = vet_entry("...secret/..rc", 10, "/ws").unwrap();
    assert_eq!(dest, "/ws/...secret/..rc");
}

#[test]
fn size_at_cap_is_accepted() {
    assert!(vet_entry("big", MAX_ENTRY_SIZE, "/ws").is_ok());
}

#[test]
fn size_one_over_cap_is_refused() {
    let err = vet_entry("big", MAX_ENTRY_SIZE + 1, "/ws").unwrap_err();
    assert_eq!(err, ExtractError::EntryTooLarge(MAX_ENTRY_SIZE + 1));
}

#[test]
fn cap_is_100_mib() {
    assert_eq!(MAX_ENTRY_SIZE, 100 * 1024 * 1024);
}

#[test]
fn path_check_precedes_size_check() {
    let err = vet_entry("../big", MAX_ENTRY_SIZE + 1, "/ws").unwrap_err();
    assert_eq!(err, ExtractError::UnsafePath("../big".to_string()));
}
