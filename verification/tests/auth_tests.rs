use base64::Engine;
use swerve::auth::{check_auth, credentials_from_arg, split_basic_auth, AuthOutcome, Credentials};

fn creds(u: &str, p: &str) -> Option<Credentials> {
    Some(Credentials {
        username: u.to_string(),
        password: p.to_string(),
    })
}

fn basic_header(payload: &[u8]) -> Option<String> {
    let enc = base64::engine::general_purpose::STANDARD.encode(payload);
    Some(format!("Basic {}", enc))
}

#[test]
fn split_at_first_colon() {
    assert_eq!(
        split_basic_auth("user:pass"),
        Some(("user".to_string(), "pass".to_string()))
    );
    assert_eq!(
        split_basic_auth("a:b:c"),
        Some(("a".to_string(), "b:c".to_string()))
    );
    assert_eq!(
        split_basic_auth(":x"),
        Some(("".to_string(), "x".to_string()))
    );
    assert_eq!(split_basic_auth("no-colon"), None);
    assert_eq!(split_basic_auth(""), None);
}

#[test]
fn credentials_need_both_fields() {
    assert!(credentials_from_arg(&None).is_none());
    assert!(credentials_from_arg(&Some("user:".to_string())).is_none());
    assert!(credentials_from_arg(&Some(":pass".to_string())).is_none());
    assert!(credentials_from_arg(&Some("nocolon".to_string())).is_none());
    let c = credentials_from_arg(&Some("user:pass".to_string())).unwrap();
    assert_eq!(c.username, "user");
    assert_eq!(c.password, "pass");
}

#[test]
fn no_credentials_allows_everything() {
    assert_eq!(check_auth(&None, &None), AuthOutcome::Allowed);
    assert_eq!(
        check_auth(&None, &Some("garbage".to_string())),
        AuthOutcome::Allowed
    );
}

#[test]
fn missing_header_draws_challenge() {
    assert_eq!(
        check_auth(&creds("user", "pass"), &None),
        AuthOutcome::ChallengeRequired
    );
}

#[test]
fn correct_credentials_are_allowed() {
    let header = Some("Basic dXNlcjpwYXNz".to_string()); // user:pass
    assert_eq!(
        check_auth(&creds("user", "pass"), &header),
        AuthOutcome::Allowed
    );
}

#[test]
fn wrong_password_is_rejected() {
    let header = basic_header(b"user:wrong");
    assert_eq!(
        check_auth(&creds("user", "pass"), &header),
        AuthOutcome::Rejected
    );
}

#[test]
fn wrong_username_is_rejected() {
    let header = basic_header(b"eve:pass");
    assert_eq!(
        check_auth(&creds("user", "pass"), &header),
        AuthOutcome::Rejected
    );
}

#[test]
fn malformed_base64_is_rejected() {
    let header = Some("Basic !!!not-base64!!!".to_string());
    assert_eq!(
        check_auth(&creds("user", "pass"), &header),
        AuthOutcome::Rejected
    );
}

#[test]
fn non_utf8_payload_is_rejected() {
    let header = basic_header(&[0xff, 0xfe, 0x3a, 0x41]);
    assert_eq!(
        check_auth(&creds("user", "pass"), &header),
        AuthOutcome::Rejected
    );
}

#[test]
fn payload_without_colon_is_rejected() {
    let header = basic_header(b"userpass");
    assert_eq!(
        check_auth(&creds("user", "pass"), &header),
        AuthOutcome::Rejected
    );
}

#[test]
fn payload_without_basic_prefix_still_decodes() {
    let enc = base64::engine::general_purpose::STANDARD.encode(b"user:pass");
    assert_eq!(
        check_auth(&creds("user", "pass"), &Some(enc)),
        AuthOutcome::Allowed
    );
}

#[test]
fn password_with_colon_splits_at_first() {
    let header = basic_header(b"user:pa:ss");
    assert_eq!(
        check_auth(&creds("user", "pa:ss"), &header),
        AuthOutcome::Allowed
    );
}
