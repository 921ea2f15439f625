use consensus::auth::{bearer_value, is_authorized};

#[test]
fn open_gateway_lets_everything_pass() {
    assert!(is_authorized(None, None));
    assert!(is_authorized(None, Some("Bearer whatever")));
}

#[test]
fn token_must_match_exactly_after_bearer() {
    assert!(is_authorized(Some("s3cret"), Some("Bearer s3cret")));
    assert!(!is_authorized(Some("s3cret"), Some("Bearer s3cret ")));
    assert!(!is_authorized(Some("s3cret"), Some("bearer s3cret")));
    assert!(!is_authorized(Some("s3cret"), Some("s3cret")));
    assert!(!is_authorized(Some("s3cret"), None));
    assert!(!is_authorized(Some(""), Some("Bearer")));
    assert!(is_authorized(Some(""), Some("Bearer ")));
}

#[test]
fn bearer_value_prefixes_the_token() {
    assert_eq!(bearer_value("abc"), "Bearer abc");
}
