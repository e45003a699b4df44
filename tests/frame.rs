use aether_core::frame::{
    contains_bytes, encode_request, extract_response, has_sentinel, occurs_at_index,
    sentinel_bytes, strip_bytes, unframed_response,
};

#[test]
fn sentinel_is_the_done_token() {
    assert_eq!(sentinel_bytes(), b"__AETHER_DONE__".to_vec());
}

#[test]
fn request_is_payload_and_newline() {
    assert_eq!(encode_request("hello"), b"hello\n".to_vec());
    assert_eq!(encode_request(""), b"\n".to_vec());
    assert_eq!(encode_request("héllo"), "héllo\n".as_bytes().to_vec());
}

#[test]
fn sentinel_found_anywhere_in_output() {
    assert!(has_sentinel(b"__AETHER_DONE__"));
    assert!(has_sentinel(b"hello\n__AETHER_DONE__\n"));
    assert!(has_sentinel(b"x__AETHER_DONE__y"));
    assert!(!has_sentinel(b"hello\n__AETHER_DONE_"));
    assert!(!has_sentinel(b""));
}

#[test]
fn occurrence_at_an_index() {
    assert!(occurs_at_index(b"abcd", b"bc", 1));
    assert!(!occurs_at_index(b"abcd", b"bc", 2));
    assert!(!occurs_at_index(b"abcd", b"cde", 2));
    assert!(!occurs_at_index(b"ab", b"a", 5));
}

#[test]
fn contains_with_empty_pattern() {
    assert!(contains_bytes(b"", b""));
    assert!(contains_bytes(b"abc", b"c"));
    assert!(!contains_bytes(b"ab", b"abc"));
}

#[test]
fn strip_removes_every_occurrence_from_the_left() {
    assert_eq!(strip_bytes(b"a--b--c", b"--"), b"abc".to_vec());
    assert_eq!(strip_bytes(b"---", b"--"), b"-".to_vec());
    assert_eq!(strip_bytes(b"abc", b"x"), b"abc".to_vec());
    assert_eq!(strip_bytes(b"", b"x"), Vec::<u8>::new());
}

#[test]
fn echo_output_yields_the_echoed_line() {
    assert_eq!(extract_response(b"hello\n__AETHER_DONE__\n"), "hello");
}

#[test]
fn response_is_trimmed_and_all_sentinels_removed() {
    assert_eq!(
        extract_response(b"  ECHO: hello aether\n__AETHER_DONE__\n"),
        "ECHO: hello aether"
    );
    assert_eq!(extract_response(b"a__AETHER_DONE__b__AETHER_DONE__"), "ab");
    assert_eq!(extract_response(b"__AETHER_DONE__"), "");
}

#[test]
fn invalid_utf8_is_replaced() {
    assert_eq!(extract_response(b"ok \xff__AETHER_DONE__"), "ok \u{FFFD}");
}

#[test]
fn unframed_read_is_decoded_and_trimmed() {
    assert_eq!(unframed_response(b"  pong \n"), "pong");
    assert_eq!(unframed_response(b"\xc3\xa9\n"), "é");
}
