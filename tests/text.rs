use tmi::text::{bytes_eq, parse_u64};

#[test]
fn decimal_numbers() {
    assert_eq!(parse_u64(b"0"), Some(0));
    assert_eq!(parse_u64(b"1594571566672"), Some(1594571566672));
    assert_eq!(parse_u64(b"18446744073709551615"), Some(u64::MAX));
    assert_eq!(parse_u64(b"18446744073709551616"), None);
    assert_eq!(parse_u64(b""), None);
    assert_eq!(parse_u64(b"12a"), None);
    assert_eq!(parse_u64(b"-1"), None);
}

#[test]
fn byte_equality() {
    assert!(bytes_eq(b"mod", b"mod"));
    assert!(!bytes_eq(b"mod", b"mo"));
    assert!(!bytes_eq(b"mod", b"mad"));
}
