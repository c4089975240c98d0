use bookserver::decimal::parse_u64;
use bookserver::decimal::u64_to_string;

#[test]
fn format_zero() {
    assert_eq!(u64_to_string(0), "0");
}

#[test]
fn format_single_digit() {
    assert_eq!(u64_to_string(7), "7");
}

#[test]
fn format_two_digits() {
    assert_eq!(u64_to_string(42), "42");
}

#[test]
fn format_round_number() {
    assert_eq!(u64_to_string(1000), "1000");
}

#[test]
fn format_largest() {
    assert_eq!(u64_to_string(u64::MAX), "18446744073709551615");
}

#[test]
fn parse_zero() {
    assert_eq!(parse_u64("0"), Some(0));
}

#[test]
fn parse_plain_number() {
    assert_eq!(parse_u64("42"), Some(42));
}

#[test]
fn parse_leading_zeros() {
    assert_eq!(parse_u64("007"), Some(7));
}

#[test]
fn parse_empty() {
    assert_eq!(parse_u64(""), None);
}

#[test]
fn parse_letters() {
    assert_eq!(parse_u64("abc"), None);
}

#[test]
fn parse_trailing_letter() {
    assert_eq!(parse_u64("1x"), None);
}

#[test]
fn parse_inner_space() {
    assert_eq!(parse_u64("4 2"), None);
}

#[test]
fn parse_minus_sign() {
    assert_eq!(parse_u64("-1"), None);
}

#[test]
fn parse_plus_sign() {
    assert_eq!(parse_u64("+1"), None);
}

#[test]
fn parse_largest() {
    assert_eq!(parse_u64("18446744073709551615"), Some(u64::MAX));
}

#[test]
fn parse_just_past_largest() {
    assert_eq!(parse_u64("18446744073709551616"), None);
}

#[test]
fn parse_far_past_largest() {
    assert_eq!(parse_u64("99999999999999999999999999"), None);
}

#[test]
fn parse_inverts_format() {
    for n in [0u64, 1, 9, 10, 99, 100, 12345, 4294967296, u64::MAX] {
        assert_eq!(parse_u64(u64_to_string(n).as_str()), Some(n));
    }
}
