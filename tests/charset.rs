use comic_rezip::constant::FALLBACK_ENCODING;
use comic_rezip::{charset_for_name, choose_charset, decode_as, decode_zip_filename, escape_only, MyError};

#[test]
fn ascii_names_decode_unchanged() {
    assert_eq!(decode_zip_filename(b"dir/file.txt").unwrap(), "dir/file.txt");
}

#[test]
fn utf8_names_decode_to_the_same_text() {
    let name = "日本語のファイル名のテストです/表紙の画像.jpg";
    assert_eq!(decode_zip_filename(name.as_bytes()).unwrap(), name);
}

#[test]
fn empty_name_falls_back_and_succeeds() {
    assert_eq!(decode_zip_filename(b"").unwrap(), "");
}

#[test]
fn escape_only_name_falls_back_and_succeeds() {
    assert!(escape_only(b"a\x1bb"));
    assert_eq!(decode_zip_filename(b"a\x1bb").unwrap(), "a\u{1b}b");
}

#[test]
fn escape_only_needs_an_escape_and_no_high_byte() {
    assert!(!escape_only(b"plain"));
    assert!(!escape_only(b"a\x1b\x93"));
    assert!(escape_only(b"\xa0\x1b"));
}

#[test]
fn missing_detection_settles_on_fallback() {
    assert_eq!(choose_charset(""), FALLBACK_ENCODING);
    assert_eq!(choose_charset("GB2312"), "GB2312");
}

#[test]
fn fallback_charset_decodes_shift_jis() {
    let raw = [0x93u8, 0xfa, 0x96, 0x7b];
    assert_eq!(decode_as(&FALLBACK_ENCODING.to_string(), &raw).unwrap(), "日本");
}

#[test]
fn gb18030_bytes_decode() {
    let raw = [0xd6u8, 0xd0, 0xce, 0xc4];
    assert_eq!(decode_as(&"GB18030".to_string(), &raw).unwrap(), "中文");
}

#[test]
fn chardet_names_are_renamed_for_the_decoder() {
    let raw = [0x93u8, 0xfa, 0x96, 0x7b];
    assert_eq!(decode_as(&"CP932".to_string(), &raw).unwrap(), "日本");
}

#[test]
fn malformed_sequences_are_dropped() {
    let raw = [b'a', 0xff, b'b'];
    assert_eq!(decode_as(&"UTF-8".to_string(), &raw).unwrap(), "ab");
}

#[test]
fn unknown_charset_is_unavailable() {
    let r = decode_as(&"no-such-charset".to_string(), b"abc");
    assert_eq!(r, Err(MyError::EncodingUnavailable("no-such-charset".to_string())));
}

#[test]
fn escape_only_names_always_take_the_fallback() {
    // "日本" in ISO-2022-JP: seven-bit bytes with escape sequences.
    let raw = b"\x1b$BF|K\\\x1b(B";
    assert_eq!(charset_for_name(raw), (FALLBACK_ENCODING.to_string(), true));
    assert_eq!(decode_zip_filename(raw).unwrap(), "\u{1b}$BF|K\\\u{1b}(B");
}

#[test]
fn fallback_use_is_reported() {
    assert_eq!(charset_for_name(b""), (FALLBACK_ENCODING.to_string(), true));
    let (charset, fell_back) = charset_for_name(b"plain.txt");
    assert!(!fell_back);
    assert_eq!(charset, "ascii");
}
