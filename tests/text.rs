use comic_rezip::{pad_end, pad_start, CustomError, MyError};

#[test]
fn pad_start_fills_on_the_left() {
    assert_eq!(pad_start("7", 3, '0'), "007");
    assert_eq!(pad_start("ab", 5, ' '), "   ab");
}

#[test]
fn pad_end_fills_on_the_right() {
    assert_eq!(pad_end("7", 3, '0'), "700");
    assert_eq!(pad_end("ab", 5, '.'), "ab...");
}

#[test]
fn padding_counts_characters_not_bytes() {
    assert_eq!(pad_start("日本", 4, '*'), "**日本");
    assert_eq!(pad_end("日本", 3, '-'), "日本-");
}

#[test]
fn wide_enough_strings_are_unchanged() {
    assert_eq!(pad_start("abcd", 3, '0'), "abcd");
    assert_eq!(pad_end("abcd", 4, '0'), "abcd");
    assert_eq!(pad_start("", 0, '0'), "");
    assert_eq!(pad_end("", 2, 'x'), "xx");
}

#[test]
fn custom_error_keeps_its_message() {
    assert_eq!(CustomError::new("boom").message, "boom");
}

#[test]
fn error_messages_name_their_kind() {
    assert_eq!(
        MyError::PathTraversal("../x".to_string()).message(),
        "Invalid file name: ../x"
    );
    assert_eq!(
        MyError::Custom(CustomError::new("boom")).message(),
        "custom error: boom"
    );
    assert_eq!(MyError::Io("disk full".to_string()).message(), "IO error: disk full");
    assert_eq!(
        MyError::DestinationExists("/o/a.zip".to_string()).message(),
        "destination already exists: /o/a.zip"
    );
}

