use antigravity_agent::{find_all_positions, get_patterns, get_search_patterns,
    search_bytes_for_token};

const KEY: &[u8] = b"x-codeium-csrf-token";
const UUID: &str = "12345678-9abc-def0-1234-56789abcdef0";

fn utf16le(bytes: &[u8]) -> Vec<u8> {
    let mut out = Vec::new();
    for b in bytes {
        out.push(*b);
        out.push(0);
    }
    out
}

#[test]
fn positions_of_repeated_word() {
    let hay = b"hello worldhello";
    let positions = find_all_positions(hay, b"hello");
    assert_eq!(positions, vec![0, 11]);
}

#[test]
fn positions_do_not_overlap() {
    let positions = find_all_positions(b"aaaa", b"aa");
    assert_eq!(positions, vec![0, 2]);
}

#[test]
fn empty_needle_finds_nothing() {
    let positions = find_all_positions(b"abc", b"");
    assert!(positions.is_empty());
}

#[test]
fn needle_longer_than_haystack_finds_nothing() {
    let positions = find_all_positions(b"ab", b"abc");
    assert!(positions.is_empty());
}

#[test]
fn positions_with_embedded_nulls() {
    let hay = [0u8, 7, 0, 7, 0, 0, 7];
    let positions = find_all_positions(&hay, &[0, 7]);
    assert_eq!(positions, vec![0, 2, 5]);
}

#[test]
fn patterns_are_the_two_encodings_of_the_key() {
    let (p8, p16) = get_patterns();
    assert_eq!(p8, KEY.to_vec());
    assert_eq!(p16, utf16le(KEY));
    let (q8, q16) = get_search_patterns();
    assert_eq!(q8, p8);
    assert_eq!(q16, p16);
}

#[test]
fn token_found_after_single_byte_occurrence() {
    let mut buf = vec![0u8; 4096];
    buf[100..100 + KEY.len()].copy_from_slice(KEY);
    let start = 100 + KEY.len() + 3;
    buf[start..start + UUID.len()].copy_from_slice(UUID.as_bytes());
    let found = search_bytes_for_token(&buf, &get_patterns());
    assert_eq!(found, Some(UUID.to_string()));
}

#[test]
fn token_found_at_several_occurrences() {
    // The label occurs twice, each followed by a valid token; one of the two
    // embedded tokens is returned.
    let other = "abcdefab-1111-2222-3333-444455556666";
    let mut buf = vec![0u8; 4096];
    buf[10..10 + KEY.len()].copy_from_slice(KEY);
    buf[10 + KEY.len()..10 + KEY.len() + UUID.len()].copy_from_slice(UUID.as_bytes());
    buf[900..900 + KEY.len()].copy_from_slice(KEY);
    buf[900 + KEY.len()..900 + KEY.len() + other.len()].copy_from_slice(other.as_bytes());
    let found = search_bytes_for_token(&buf, &get_patterns()).expect("token expected");
    assert!(found == UUID || found == other);
}

#[test]
fn dual_encoding_utf16_only_is_found() {
    // Label and token in 16-bit little-endian units only: no single-byte
    // occurrence exists anywhere in the buffer.
    let mut buf = vec![0u8; 4096];
    let key16 = utf16le(KEY);
    let uuid16 = utf16le(UUID.as_bytes());
    buf[200..200 + key16.len()].copy_from_slice(&key16);
    buf[200 + key16.len()..200 + key16.len() + uuid16.len()].copy_from_slice(&uuid16);
    let found = search_bytes_for_token(&buf, &get_patterns());
    assert_eq!(found, Some(UUID.to_string()));
}

#[test]
fn no_label_means_no_token() {
    let mut buf = vec![0u8; 1024];
    buf[10..10 + UUID.len()].copy_from_slice(UUID.as_bytes());
    assert_eq!(search_bytes_for_token(&buf, &get_patterns()), None);
}

#[test]
fn label_without_uuid_means_no_token() {
    let mut buf = vec![0u8; 1024];
    buf[10..10 + KEY.len()].copy_from_slice(KEY);
    buf[10 + KEY.len()..10 + KEY.len() + 20].copy_from_slice(b"no token here at all");
    assert_eq!(search_bytes_for_token(&buf, &get_patterns()), None);
}

#[test]
fn malformed_uuid_is_rejected() {
    // A dash out of place: group lengths 7-5-4-4-12.
    let bad = "1234567-89abc-def0-1234-56789abcdef0";
    let mut buf = vec![0u8; 1024];
    buf[10..10 + KEY.len()].copy_from_slice(KEY);
    buf[10 + KEY.len()..10 + KEY.len() + bad.len()].copy_from_slice(bad.as_bytes());
    assert_eq!(search_bytes_for_token(&buf, &get_patterns()), None);
}

#[test]
fn uuid_outside_lookahead_window_is_missed() {
    // The token begins more than the lookahead window after the label.
    let mut buf = vec![0u8; 4096];
    buf[10..10 + KEY.len()].copy_from_slice(KEY);
    let start = 10 + KEY.len() + 300;
    buf[start..start + UUID.len()].copy_from_slice(UUID.as_bytes());
    assert_eq!(search_bytes_for_token(&buf, &get_patterns()), None);
}

#[test]
fn uuid_with_uppercase_hex_is_accepted() {
    let upper = "ABCDEF00-1234-5678-9ABC-DEF012345678";
    let mut buf = vec![0u8; 1024];
    buf[10..10 + KEY.len()].copy_from_slice(KEY);
    buf[10 + KEY.len()..10 + KEY.len() + upper.len()].copy_from_slice(upper.as_bytes());
    assert_eq!(search_bytes_for_token(&buf, &get_patterns()), Some(upper.to_string()));
}

#[test]
fn token_flush_against_buffer_end_is_found() {
    // The lookahead window is truncated at the end of the buffer and holds
    // exactly the token.
    let mut buf = vec![0u8; 1024];
    let offset = 1024 - KEY.len() - UUID.len();
    buf[offset..offset + KEY.len()].copy_from_slice(KEY);
    buf[offset + KEY.len()..].copy_from_slice(UUID.as_bytes());
    assert_eq!(search_bytes_for_token(&buf, &get_patterns()), Some(UUID.to_string()));
}

#[test]
fn label_at_buffer_end_without_window_yields_nothing() {
    let mut buf = vec![0u8; 256];
    let offset = 256 - KEY.len();
    buf[offset..].copy_from_slice(KEY);
    assert_eq!(search_bytes_for_token(&buf, &get_patterns()), None);
}
