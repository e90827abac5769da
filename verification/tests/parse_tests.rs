use intent_registry::parse::parse_u128_dec;
use intent_registry::parse::parse_u128_or_zero;
use intent_registry::parse::parse_u64_dec;
use intent_registry::parse::parse_u64_or_zero;

#[test]
fn plain_digits_decode() {
    assert_eq!(parse_u128_or_zero("500"), 500);
    assert_eq!(parse_u64_or_zero("10"), 10);
    assert_eq!(parse_u128_or_zero("0"), 0);
}

#[test]
fn empty_string_decodes_to_zero() {
    assert_eq!(parse_u128_or_zero(""), 0);
    assert_eq!(parse_u64_or_zero(""), 0);
}

#[test]
fn non_numeric_decodes_to_zero() {
    assert_eq!(parse_u128_or_zero("not-a-number"), 0);
    assert_eq!(parse_u128_or_zero("12a3"), 0);
    assert_eq!(parse_u128_or_zero(" 12"), 0);
    assert_eq!(parse_u128_or_zero("12 "), 0);
    assert_eq!(parse_u128_or_zero("-5"), 0);
    assert_eq!(parse_u64_or_zero("1.5"), 0);
}

#[test]
fn non_ascii_digits_decode_to_zero() {
    assert_eq!(parse_u128_or_zero("١٢٣"), 0);
    assert_eq!(parse_u64_or_zero("５"), 0);
}

#[test]
fn leading_plus_sign_is_accepted_once() {
    assert_eq!(parse_u128_or_zero("+7"), 7);
    assert_eq!(parse_u64_or_zero("+0"), 0);
    assert_eq!(parse_u128_or_zero("+"), 0);
    assert_eq!(parse_u128_or_zero("++7"), 0);
    assert_eq!(parse_u128_or_zero("7+"), 0);
}

#[test]
fn leading_zeros_are_insignificant() {
    assert_eq!(parse_u128_or_zero("007"), 7);
    assert_eq!(parse_u64_or_zero("000"), 0);
}

#[test]
fn u128_range_boundary() {
    assert_eq!(
        parse_u128_or_zero("340282366920938463463374607431768211455"),
        u128::MAX
    );
    assert_eq!(
        parse_u128_or_zero("340282366920938463463374607431768211456"),
        0
    );
}

#[test]
fn u64_range_boundary() {
    assert_eq!(parse_u64_or_zero("18446744073709551615"), u64::MAX);
    assert_eq!(parse_u64_or_zero("18446744073709551616"), 0);
    // The same text still fits the wider amount decoder.
    assert_eq!(parse_u128_or_zero("18446744073709551616"), 18446744073709551616);
}

#[test]
fn strict_decoders_report_failure() {
    assert_eq!(parse_u128_dec("12"), Some(12));
    assert_eq!(parse_u128_dec("abc"), None);
    assert_eq!(parse_u128_dec(""), None);
    assert_eq!(parse_u64_dec("18446744073709551616"), None);
    assert_eq!(parse_u64_dec("+42"), Some(42));
}
