use skype_rs::auth::{authorize, hash_password, password_matches};

#[test]
fn hash_password_is_hex_sha256() {
    assert_eq!(
        hash_password("secret"),
        "2bb80d537b1da3e38bd30361aa855686bde0eacd7162fef6a25fe97bf527a25b"
    );
    assert_eq!(
        hash_password(""),
        "e3b0c44298fc1c149afbf4c8996fb92427ae41e4649b934ca495991b7852b855"
    );
    assert_eq!(hash_password("abc").len(), 64);
}

#[test]
fn registered_password_is_accepted() {
    let stored = hash_password("secret");
    assert!(password_matches(Some(stored.clone()), "secret"));
    assert!(!password_matches(Some(stored), "Secret"));
    assert!(!password_matches(None, "secret"));
}

#[test]
fn authorize_accepts_only_session_owner() {
    assert!(authorize(Some("alice".to_string()), "alice").is_ok());
    match authorize(Some("bob".to_string()), "alice") {
        Err(skype_rs::error::AppError::Protocol(m)) => assert_eq!(m, "unauthorized session"),
        _ => panic!("expected unauthorized"),
    }
    match authorize(None, "alice") {
        Err(skype_rs::error::AppError::Protocol(m)) => assert_eq!(m, "unauthorized session"),
        _ => panic!("expected unauthorized"),
    }
}

#[test]
fn session_tokens_are_random_v4_uuids() {
    let t = skype_rs::auth::issue_session_token();
    let u = uuid::Uuid::from_u128(t.value);
    assert_eq!(u.get_version_num(), 4);
    assert_eq!(u.get_variant(), uuid::Variant::RFC4122);
    assert_eq!(t.text, u.to_string());
    assert_eq!(t.text.len(), 36);
    assert_eq!(t.text.as_bytes()[14], b'4');
    assert_eq!(t.text, t.text.to_lowercase());
    let t2 = skype_rs::auth::issue_session_token();
    assert_ne!(t.value, t2.value);
}
