use hovercraft::text::{i64_to_string, u64_to_string};

#[test]
fn unsigned_zero() {
    assert_eq!(u64_to_string(0), "0");
}

#[test]
fn unsigned_single_digit() {
    assert_eq!(u64_to_string(7), "7");
}

#[test]
fn unsigned_carries() {
    assert_eq!(u64_to_string(10), "10");
    assert_eq!(u64_to_string(1234567890), "1234567890");
}

#[test]
fn unsigned_largest() {
    assert_eq!(u64_to_string(u64::MAX), "18446744073709551615");
}

#[test]
fn signed_zero_and_positive() {
    assert_eq!(i64_to_string(0), "0");
    assert_eq!(i64_to_string(42), "42");
    assert_eq!(i64_to_string(i64::MAX), "9223372036854775807");
}

#[test]
fn signed_negative() {
    assert_eq!(i64_to_string(-1), "-1");
    assert_eq!(i64_to_string(-123), "-123");
}

#[test]
fn signed_smallest() {
    assert_eq!(i64_to_string(i64::MIN), "-9223372036854775808");
}
