use iradio_bridge::auth::{authorize_request, credentials_match, AUTHENTICATE_CHALLENGE, UNAUTHORIZED_BODY};

#[test]
fn disabled_auth_allows_everything() {
    assert!(authorize_request("/api/v1/players", None, "user", "pass", false));
    assert!(authorize_request("/api/v1/players", Some("Basic bad"), "user", "pass", false));
}

#[test]
fn health_is_always_open() {
    assert!(authorize_request("/api/v1/health", None, "user", "pass", true));
}

#[test]
fn correct_basic_credentials_pass() {
    // "user:pass"
    assert!(authorize_request("/api/v1/players", Some("Basic dXNlcjpwYXNz"), "user", "pass", true));
}

#[test]
fn wrong_or_missing_credentials_fail() {
    assert!(!authorize_request("/api/v1/players", None, "user", "pass", true));
    // "user:nope"
    assert!(!authorize_request("/api/v1/players", Some("Basic dXNlcjpub3Bl"), "user", "pass", true));
    assert!(!authorize_request("/api/v1/players", Some("Bearer dXNlcjpwYXNz"), "user", "pass", true));
    assert!(!authorize_request("/api/v1/players", Some("Basic !!!"), "user", "pass", true));
    assert!(!authorize_request("/api/v1/players", Some("Basic"), "user", "pass", true));
    // "userpass" has no colon
    assert!(!authorize_request("/api/v1/players", Some("Basic dXNlcnBhc3M="), "user", "pass", true));
}

#[test]
fn credentials_split_at_first_colon() {
    assert!(credentials_match(b"user:pa:ss", "user", "pa:ss"));
    assert!(!credentials_match(b"us:er:pass", "us:er", "pass"));
    assert!(credentials_match(b":", "", ""));
    assert!(!credentials_match(&[0xff, b':', b'a'], "\u{fffd}", "a"));
}

#[test]
fn refusal_texts() {
    assert_eq!(UNAUTHORIZED_BODY, "{\"error\":\"authentication required\"}");
    assert_eq!(AUTHENTICATE_CHALLENGE, "Basic realm=\"Inferno Radio\"");
}
