use clipwallet::decimal::{parse_u64, u64_to_decimal};

#[test]
fn decimal_rendering_and_parsing() {
    assert_eq!(u64_to_decimal(0), "0");
    assert_eq!(u64_to_decimal(1234567890), "1234567890");
    assert_eq!(u64_to_decimal(u64::MAX), u64::MAX.to_string());
    assert_eq!(parse_u64(b"42"), Some(42));
    assert_eq!(parse_u64(b"+42"), Some(42));
    assert_eq!(parse_u64(b"+"), None);
    assert_eq!(parse_u64(b""), None);
    assert_eq!(parse_u64(b"-1"), None);
    assert_eq!(parse_u64(b"18446744073709551615"), Some(u64::MAX));
    assert_eq!(parse_u64(b"18446744073709551616"), None);
    assert_eq!(parse_u64(b"4x"), None);
    assert_eq!(parse_u64(b"007"), Some(7));
}
