use tenant_registry::domain::{is_valid_domain, validate};
use tenant_registry::model::ClaimError;

#[test]
fn rejects_empty_label() {
    assert_eq!(validate("a..b.com"), Err(ClaimError::InvalidDomain));
}

#[test]
fn rejects_leading_hyphen() {
    assert_eq!(validate("-abc.com"), Err(ClaimError::InvalidDomain));
}

#[test]
fn rejects_empty_string() {
    assert_eq!(validate(""), Err(ClaimError::InvalidDomain));
}

#[test]
fn accepts_multi_label_name() {
    assert_eq!(validate("sub.example.co"), Ok(()));
}

#[test]
fn accepts_plain_domain() {
    assert!(is_valid_domain("example.com"));
}

#[test]
fn accepts_hyphen_inside_label() {
    assert!(is_valid_domain("my-site.example.com"));
}

#[test]
fn accepts_punycode() {
    assert!(is_valid_domain("xn--bcher-kva.example"));
}

#[test]
fn accepts_digits() {
    assert!(is_valid_domain("123.456.com"));
}

#[test]
fn rejects_underscore() {
    assert!(!is_valid_domain("bad_domain"));
}

#[test]
fn rejects_single_label() {
    assert!(!is_valid_domain("localhost"));
}

#[test]
fn rejects_trailing_hyphen() {
    assert!(!is_valid_domain("abc-.com"));
}

#[test]
fn rejects_leading_dot() {
    assert!(!is_valid_domain(".example.com"));
}

#[test]
fn rejects_trailing_dot() {
    assert!(!is_valid_domain("example.com."));
}

#[test]
fn rejects_raw_non_ascii() {
    assert!(!is_valid_domain("b\u{00fc}cher.example"));
}

#[test]
fn rejects_label_longer_than_63() {
    let long = "a".repeat(64);
    assert!(!is_valid_domain(&format!("{}.com", long)));
    let ok = "a".repeat(63);
    assert!(is_valid_domain(&format!("{}.com", ok)));
}

#[test]
fn rejects_space_and_symbols() {
    assert!(!is_valid_domain("exa mple.com"));
    assert!(!is_valid_domain("exam!ple.com"));
}
