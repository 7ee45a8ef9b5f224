use memcache::protocol::check_key_len;
use memcache::text::{append_bytes, bytes_eq, find_byte, parse_u64, push_decimal, slice_str, starts_with};

#[test]
fn decimal_numerals() {
    for (n, text) in [(0u64, "0"), (7, "7"), (10, "10"), (250, "250"), (u64::MAX, "18446744073709551615")] {
        let mut out = b"x".to_vec();
        push_decimal(&mut out, n);
        assert_eq!(out, format!("x{}", text).into_bytes());
        assert_eq!(parse_u64(text.as_bytes()), Some(n));
    }
}

#[test]
fn what_is_no_numeral() {
    for text in ["", "-1", "+1", " 1", "1 ", "1a", "18446744073709551616", "99999999999999999999"] {
        assert_eq!(parse_u64(text.as_bytes()), None, "{:?}", text);
    }
    assert_eq!(parse_u64(b"00018446744073709551615"), Some(u64::MAX));
}

#[test]
fn prefixes_and_equality() {
    assert!(starts_with(b"CLIENT_ERROR x", b"CLIENT_ERROR"));
    assert!(starts_with(b"abc", b""));
    assert!(!starts_with(b"ab", b"abc"));
    assert!(!starts_with(b"abd", b"abc"));
    assert!(bytes_eq(b"abc", b"abc"));
    assert!(!bytes_eq(b"abc", b"abcd"));
    assert!(!bytes_eq(b"abc", b"abd"));
}

#[test]
fn appending_and_finding() {
    let mut out = b"ab".to_vec();
    append_bytes(&mut out, b"cd");
    assert_eq!(out, b"abcd".to_vec());
    assert_eq!(find_byte(b"a b c", 0, 5, b' '), 1);
    assert_eq!(find_byte(b"a b c", 2, 5, b' '), 3);
    assert_eq!(find_byte(b"a b c", 4, 5, b' '), 5);
    assert_eq!(find_byte(b"a b c", 2, 3, b' '), 3);
}

#[test]
fn slices_of_text_between_ascii_bytes() {
    assert_eq!(slice_str("VALUE clé 0 1\r\n", 6, 10), "clé");
    assert_eq!(slice_str("abc", 0, 3), "abc");
    assert_eq!(slice_str("abc", 1, 1), "");
}

#[test]
fn key_lengths() {
    assert!(check_key_len("").is_ok());
    assert!(check_key_len(&"a".repeat(250)).is_ok());
    assert!(check_key_len(&"a".repeat(251)).is_err());
}
