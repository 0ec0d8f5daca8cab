//! Signing requests to the ticket tracker.

use base64::engine::general_purpose::STANDARD as B64;
use base64::Engine;

use clhorde::jira::auth::JiraAuth;
use clhorde::jira::error::JiraError;

#[test]
fn debug_does_not_leak_token() {
    let auth = JiraAuth::new("alice@example.com".into(), "super-secret-token-1234".into());
    let dbg = auth.debug_text();
    assert!(dbg.contains("alice@example.com"));
    assert!(!dbg.contains("super-secret-token-1234"));
    assert!(dbg.contains("<redacted>"));
}

#[test]
fn header_value_is_basic_b64() {
    let auth = JiraAuth::new("a@b.c".into(), "tok".into());
    let h = auth.header_value();
    assert!(h.starts_with("Basic "));
    let b64 = h.strip_prefix("Basic ").unwrap();
    let decoded = B64.decode(b64).unwrap();
    assert_eq!(decoded, b"a@b.c:tok");
}

#[test]
fn from_env_reports_missing_var() {
    let var = "JIRA_TOKEN_DEFINITELY_UNSET_4242";
    let err = JiraAuth::from_env("a@b.c".into(), var, None).err().unwrap();
    assert!(matches!(err, JiraError::EnvMissing { .. }));
}

#[test]
fn from_env_reads_token_value() {
    let var = "JIRA_TOKEN_FROM_ENV_TEST_OK";
    let auth = JiraAuth::from_env("a@b.c".into(), var, Some("opaque-token".into())).ok().unwrap();
    assert_eq!(auth.email, "a@b.c");
    assert!(auth.header_value().starts_with("Basic "));
}

#[test]
fn from_env_treats_empty_token_as_missing() {
    let var = "JIRA_TOKEN_EMPTY_TEST";
    let err = JiraAuth::from_env("a@b.c".into(), var, Some("   ".into()))
        .err()
        .unwrap();
    assert!(matches!(err, JiraError::EnvMissing { .. }));
}

#[test]
fn the_header_is_padded() {
    for (email, token) in [("a", "bc"), ("a", "b"), ("a", ""), ("\u{fc}ber", "t\u{f6}ken")] {
        let header = JiraAuth::new(email.into(), token.into()).header_value();
        let expected = B64.encode(format!("{email}:{token}"));
        assert_eq!(header, format!("Basic {expected}"));
    }
    assert_eq!(
        JiraAuth::new("user".into(), "pass".into()).header_value(),
        "Basic dXNlcjpwYXNz"
    );
}
