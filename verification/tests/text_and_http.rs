use rank2collection::http::{bearer, status_is_success};
use rank2collection::text::{decimal_string, push_decimal};

#[test]
fn decimal_of_zero_is_single_digit() {
    assert_eq!(decimal_string(0), "0");
}

#[test]
fn decimal_matches_format() {
    for n in [1u64, 9, 10, 99, 100, 12345, 56190, u64::MAX] {
        assert_eq!(decimal_string(n), format!("{}", n));
    }
}

#[test]
fn push_decimal_appends() {
    let mut s = String::from("offset=");
    push_decimal(&mut s, 300);
    assert_eq!(s, "offset=300");
}

#[test]
fn success_is_the_2xx_class() {
    assert!(status_is_success(200));
    assert!(status_is_success(201));
    assert!(status_is_success(299));
    assert!(!status_is_success(199));
    assert!(!status_is_success(300));
    assert!(!status_is_success(404));
    assert!(!status_is_success(500));
}

#[test]
fn bearer_header_prefixes_token() {
    assert_eq!(bearer("abc123"), "Bearer abc123");
    assert_eq!(bearer(""), "Bearer ");
}
