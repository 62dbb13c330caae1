//! Field validation: the allow-listed character set and the length
//! bounds.

use watchlist::middleware::acceptable_headers;
use watchlist::security::{get_sha512, is_field_valid, is_valid_field, is_valid_password_hash};
use watchlist::text::to_ascii_lowercase;
use watchlist::user_model::UserRequest;

#[test]
fn accepts_plain_usernames() {
    assert!(is_valid_field("alice01", 20));
    assert!(is_valid_field("bob", 20));
    assert!(is_valid_field("Secret1!", 20));
    assert!(is_valid_field("with space", 20));
    assert!(is_valid_field("punct!@#$%&*_-+.,<>;/?", 60));
}

#[test]
fn rejects_short_and_long_fields() {
    assert!(!is_valid_field("", 20));
    assert!(!is_valid_field("ab", 20));
    assert!(is_valid_field("abc", 20));
    assert!(is_valid_field("abcdefghijklmnopqrst", 20));
    assert!(!is_valid_field("abcdefghijklmnopqrstu", 20));
    assert!(is_valid_field("abcdefghijklmnopqrstu", 60));
}

#[test]
fn rejects_disallowed_characters() {
    assert!(!is_valid_field("has\ttab", 20));
    assert!(!is_valid_field("newline\n", 20));
    assert!(!is_valid_field("braces{}", 20));
    assert!(!is_valid_field("col:on", 20));
    assert!(!is_valid_field("\u{e9}t\u{e9}", 20));
}

#[test]
fn client_field_check_uses_twenty() {
    assert!(is_field_valid("alice01"));
    assert!(!is_field_valid("abcdefghijklmnopqrstu"));
    assert!(!is_field_valid("ab"));
}

#[test]
fn lowercase_folds_ascii_only() {
    assert_eq!(to_ascii_lowercase("Alice01"), "alice01");
    assert_eq!(to_ascii_lowercase("MiXeD CaSe!"), "mixed case!");
    assert_eq!(to_ascii_lowercase("already"), "already");
}

#[test]
fn password_hash_shape() {
    let h = get_sha512("Secret1!".as_bytes());
    assert!(is_valid_password_hash(&h));
    assert!(!is_valid_password_hash("Secret1!"));
    assert!(!is_valid_password_hash(&h[..127]));
}

#[test]
fn accept_header_negotiation() {
    assert!(acceptable_headers(None));
    assert!(acceptable_headers(Some("application/json")));
    assert!(acceptable_headers(Some("*/*")));
    assert!(!acceptable_headers(Some("text/html")));
    assert!(!acceptable_headers(Some("application/xml")));
}

#[test]
fn auth_extraction_round_trip() {
    let req = UserRequest::new("alice01", "Secret1!");
    let (user, pass) = req.extract_auth();
    assert_eq!(user, "alice01");
    assert_eq!(pass, Some("Secret1!"));
}
