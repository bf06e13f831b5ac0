use org_export::client::{cache_file_name, status_indicates_failure};
use org_export::text::{i64_to_dec, join_strings, u64_to_dec, u64_to_dec_pad2};

#[test]
fn decimal_zero() {
    assert_eq!(u64_to_dec(0), "0");
}

#[test]
fn decimal_plain() {
    assert_eq!(u64_to_dec(12345), "12345");
    assert_eq!(u64_to_dec(10), "10");
    assert_eq!(u64_to_dec(9), "9");
}

#[test]
fn decimal_u64_max() {
    assert_eq!(u64_to_dec(u64::MAX), "18446744073709551615");
}

#[test]
fn decimal_signed_negative() {
    assert_eq!(i64_to_dec(-42), "-42");
    assert_eq!(i64_to_dec(-1), "-1");
}

#[test]
fn decimal_signed_extremes() {
    assert_eq!(i64_to_dec(i64::MIN), "-9223372036854775808");
    assert_eq!(i64_to_dec(i64::MAX), "9223372036854775807");
    assert_eq!(i64_to_dec(0), "0");
}

#[test]
fn decimal_padded_two_digits() {
    assert_eq!(u64_to_dec_pad2(0), "00");
    assert_eq!(u64_to_dec_pad2(7), "07");
    assert_eq!(u64_to_dec_pad2(42), "42");
    assert_eq!(u64_to_dec_pad2(123), "123");
}

#[test]
fn join_empty_and_single() {
    let none: Vec<String> = vec![];
    assert_eq!(join_strings(&none, ";"), "");
    let one = vec!["a".to_string()];
    assert_eq!(join_strings(&one, ";"), "a");
}

#[test]
fn join_many() {
    let parts = vec!["a".to_string(), "b".to_string(), "c".to_string()];
    assert_eq!(join_strings(&parts, "; "), "a; b; c");
}

#[test]
fn cache_file_names_are_zero_padded() {
    assert_eq!(cache_file_name("raw", 0), "raw.00");
    assert_eq!(cache_file_name("raw", 7), "raw.07");
    assert_eq!(cache_file_name("out/cache", 12), "out/cache.12");
    assert_eq!(cache_file_name("raw", 123), "raw.123");
}

#[test]
fn status_error_classes() {
    assert!(!status_indicates_failure(200));
    assert!(!status_indicates_failure(302));
    assert!(!status_indicates_failure(399));
    assert!(status_indicates_failure(400));
    assert!(status_indicates_failure(404));
    assert!(status_indicates_failure(500));
    assert!(status_indicates_failure(599));
    assert!(!status_indicates_failure(600));
}
