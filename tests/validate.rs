use comic_rezip::{validate_file_name, MyError};

fn rejected(name: &str) -> bool {
    matches!(validate_file_name(name), Err(MyError::PathTraversal(m)) if m == name)
}

#[test]
fn parent_segment_in_middle_is_rejected() {
    assert!(rejected("a/../b"));
}

#[test]
fn dots_inside_a_segment_are_accepted() {
    assert!(validate_file_name("a/b..c").is_ok());
    assert!(validate_file_name("..a/b").is_ok());
    assert!(validate_file_name("a/b../c").is_ok());
    assert!(validate_file_name("a/.../c").is_ok());
}

#[test]
fn drive_letter_is_rejected() {
    assert!(rejected("C:/x"));
    assert!(rejected("z:"));
}

#[test]
fn non_letter_before_colon_is_accepted() {
    assert!(validate_file_name("1:/x").is_ok());
    assert!(validate_file_name("ab:c").is_ok());
}

#[test]
fn absolute_path_is_rejected() {
    assert!(rejected("/etc/passwd"));
}

#[test]
fn backslash_is_rejected() {
    assert!(rejected("a\\b"));
    assert!(rejected("..\\x"));
}

#[test]
fn parent_segment_at_either_end_is_rejected() {
    assert!(rejected(".."));
    assert!(rejected("../x"));
    assert!(rejected("x/.."));
    assert!(rejected("x/../"));
}

#[test]
fn ordinary_names_are_accepted() {
    assert!(validate_file_name("").is_ok());
    assert!(validate_file_name("cover.jpg").is_ok());
    assert!(validate_file_name("vol1/page 01.png").is_ok());
    assert!(validate_file_name("dir/").is_ok());
    assert!(validate_file_name("日本語/表紙.jpg").is_ok());
}
