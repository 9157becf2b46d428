use driftwatch::ci::{detect_pr_number, parse_pr_from_github_ref};
use driftwatch::decimal::{parse_i32, parse_u16};

#[test]
fn test_parse_pr_from_github_ref_valid() {
    assert_eq!(parse_pr_from_github_ref("refs/pull/123/merge"), Some(123));
    assert_eq!(parse_pr_from_github_ref("refs/pull/1/merge"), Some(1));
    assert_eq!(
        parse_pr_from_github_ref("refs/pull/99999/merge"),
        Some(99999)
    );
    assert_eq!(parse_pr_from_github_ref("refs/pull/42/head"), Some(42));
}

#[test]
fn test_parse_pr_from_github_ref_invalid() {
    assert_eq!(parse_pr_from_github_ref("refs/heads/main"), None);
    assert_eq!(parse_pr_from_github_ref("refs/tags/v1.0.0"), None);
    assert_eq!(parse_pr_from_github_ref(""), None);
    assert_eq!(parse_pr_from_github_ref("refs/pull/"), None);
    assert_eq!(parse_pr_from_github_ref("refs/pull/abc/merge"), None);
}

#[test]
fn test_parse_pr_from_github_ref_edge_cases() {
    // Not starting with refs/pull/
    assert_eq!(parse_pr_from_github_ref("pull/123/merge"), None);
    assert_eq!(parse_pr_from_github_ref(" refs/pull/123/merge"), None);

    // Large PR numbers
    assert_eq!(
        parse_pr_from_github_ref("refs/pull/2147483647/merge"),
        Some(2147483647)
    );

    // Negative numbers (should be rejected)
    assert_eq!(parse_pr_from_github_ref("refs/pull/-1/merge"), None);

    // Zero (should be rejected - PR numbers start at 1)
    assert_eq!(parse_pr_from_github_ref("refs/pull/0/merge"), None);
}

#[test]
fn pr_ref_without_trailing_segment() {
    assert_eq!(parse_pr_from_github_ref("refs/pull/7"), Some(7));
    assert_eq!(parse_pr_from_github_ref("refs/pull/+7/merge"), Some(7));
    assert_eq!(parse_pr_from_github_ref("refs/pull/2147483648/merge"), None);
    assert_eq!(parse_pr_from_github_ref("refs/pull//merge"), None);
}

#[test]
fn detect_prefers_the_ref() {
    assert_eq!(detect_pr_number(Some("refs/pull/5/merge"), Some("9")), Some(5));
    assert_eq!(detect_pr_number(Some("refs/heads/main"), Some("9")), Some(9));
    assert_eq!(detect_pr_number(None, Some("12")), Some(12));
    assert_eq!(detect_pr_number(None, Some("x")), None);
    assert_eq!(detect_pr_number(None, None), None);
    // The directly given number is taken as std reads an i32.
    assert_eq!(detect_pr_number(None, Some("-3")), Some(-3));
}

#[test]
fn parse_i32_like_std() {
    for s in ["0", "-0", "+0", "42", "-42", "+42", "2147483647", "-2147483648", "007"] {
        assert_eq!(parse_i32(s), s.parse::<i32>().ok(), "{}", s);
    }
    for s in ["", "+", "-", "2147483648", "-2147483649", "1a", " 1", "1 ", "--1", "99999999999"] {
        assert_eq!(parse_i32(s), None, "{}", s);
        assert!(s.parse::<i32>().is_err());
    }
}

#[test]
fn parse_u16_like_std() {
    for s in ["0", "+0", "4000", "65535", "00080"] {
        assert_eq!(parse_u16(s), s.parse::<u16>().ok(), "{}", s);
    }
    for s in ["", "+", "-0", "-1", "65536", "80x", "4294967296"] {
        assert_eq!(parse_u16(s), None, "{}", s);
        assert!(s.parse::<u16>().is_err());
    }
}
