use comic_rezip::constant::JPEG_QUALITY;
use comic_rezip::{
    after_remove_attempt, is_archive_candidate, join_path, out_zip_path, MyError, RemoveOutcome,
    RemoveStep, TransformPolicy,
};

#[test]
fn listed_extensions_are_converted_to_jpg() {
    let t = TransformPolicy::standard();
    assert_eq!(t.quality, JPEG_QUALITY);
    assert_eq!(t.target_path("/s/a/page.png", true), Some("/s/a/page.jpg".to_string()));
    assert_eq!(t.target_path("/s/cover.webp", true), Some("/s/cover.jpg".to_string()));
    assert_eq!(t.target_path("/s/scan.JPG", true), Some("/s/scan.jpg".to_string()));
}

#[test]
fn extension_match_is_case_sensitive() {
    let t = TransformPolicy::standard();
    assert!(!t.needs_transform("/s/p.PNG", true));
    assert!(!t.needs_transform("/s/p.jpg", true));
    assert!(!t.needs_transform("/s/p.Jpg", true));
    assert!(t.needs_transform("/s/p.bmp", true));
    assert_eq!(t.target_path("/s/p.jpeg", true), None);
}

#[test]
fn directories_and_bare_names_are_not_converted() {
    let t = TransformPolicy::standard();
    assert!(!t.needs_transform("/s/dir.png", false));
    assert!(!t.needs_transform("/s/png", true));
}

#[test]
fn removal_of_a_gone_file_succeeds_every_time() {
    for _ in 0..3 {
        assert_eq!(after_remove_attempt(RemoveOutcome::NotFound), RemoveStep::Done);
    }
    assert_eq!(after_remove_attempt(RemoveOutcome::Removed), RemoveStep::Done);
    assert_eq!(after_remove_attempt(RemoveOutcome::Failed), RemoveStep::Retry);
}

#[test]
fn output_goes_under_the_home_folder() {
    assert_eq!(
        out_zip_path("/home/u", "/data/in/book.zip").unwrap(),
        "/home/u/Downloads/test-out/book.zip"
    );
    assert_eq!(
        out_zip_path("/home/u/", "book.zip").unwrap(),
        "/home/u/Downloads/test-out/book.zip"
    );
}

#[test]
fn output_path_needs_a_file_name() {
    assert!(matches!(out_zip_path("/home/u", "/data/.."), Err(MyError::Custom(_))));
    assert!(matches!(out_zip_path("/home/u", "/"), Err(MyError::Custom(_))));
}

#[test]
fn joining_paths() {
    assert_eq!(join_path("a", "b"), "a/b");
    assert_eq!(join_path("a/", "b"), "a/b");
    assert_eq!(join_path("", "b"), "b");
    assert_eq!(join_path("a", "/b"), "/b");
}

#[test]
fn only_zip_files_are_candidates() {
    assert!(is_archive_candidate("/in/book.zip", true));
    assert!(!is_archive_candidate("/in/book.ZIP", true));
    assert!(!is_archive_candidate("/in/book.zip", false));
    assert!(!is_archive_candidate("zip", true));
    assert!(is_archive_candidate(".zip", true));
}
