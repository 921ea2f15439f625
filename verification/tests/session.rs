use consensus::session::{normalize_base_url, session_ws_url, SessionError};

#[test]
fn normalizes_base_url() {
    assert_eq!(
        normalize_base_url("http://127.0.0.1:3000/"),
        "http://127.0.0.1:3000"
    );
}

#[test]
fn builds_ws_url_from_http_base() {
    assert_eq!(
        session_ws_url("http://127.0.0.1:3000").unwrap(),
        "ws://127.0.0.1:3000/v1/sessions"
    );
    assert_eq!(
        session_ws_url("https://example.com").unwrap(),
        "wss://example.com/v1/sessions"
    );
}

#[test]
fn normalize_strips_every_trailing_slash_only() {
    assert_eq!(normalize_base_url("http://h//"), "http://h");
    assert_eq!(normalize_base_url("///"), "");
    assert_eq!(normalize_base_url("http://h/a"), "http://h/a");
}

#[test]
fn ws_url_rejects_other_schemes() {
    assert_eq!(
        session_ws_url("ftp://example.com"),
        Err(SessionError::InvalidGatewayUrl(String::from(
            "expected http:// or https:// base URL, got ftp://example.com"
        )))
    );
    assert!(session_ws_url("http:/x").is_err());
}
