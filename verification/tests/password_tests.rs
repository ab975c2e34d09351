use gymbuddy::password::{check_credentials, hash_password, verify_password};

#[test]
fn hash_then_verify_accepts() {
    let digest = hash_password("correct horse battery staple");
    assert!(verify_password(&digest, "correct horse battery staple"));
}

#[test]
fn wrong_password_rejected() {
    let digest = hash_password("correct horse battery staple");
    assert!(!verify_password(&digest, "Tr0ub4dor&3"));
    assert!(!verify_password(&digest, ""));
    assert!(!verify_password(&digest, "correct horse battery staple "));
}

#[test]
fn salts_differ_but_both_verify() {
    let d1 = hash_password("same password");
    let d2 = hash_password("same password");
    assert_ne!(d1, d2);
    assert!(verify_password(&d1, "same password"));
    assert!(verify_password(&d2, "same password"));
}

#[test]
fn malformed_digest_fails_closed() {
    assert!(!verify_password("", "anything"));
    assert!(!verify_password("not a digest", "anything"));
    assert!(!verify_password("$argon2id$garbage", "anything"));
}

#[test]
fn empty_password_round_trip() {
    let digest = hash_password("");
    assert!(verify_password(&digest, ""));
    assert!(!verify_password(&digest, "x"));
}

#[test]
fn login_decision_fails_closed() {
    let user = gymbuddy::models::User {
        id: 5,
        username: "lifter".to_string(),
        email: "lifter@example.com".to_string(),
        password_hash: hash_password("open sesame"),
    };
    assert_eq!(check_credentials(Some(&user), "open sesame"), Some(5));
    assert_eq!(check_credentials(Some(&user), "wrong"), None);
    assert_eq!(check_credentials(None, "open sesame"), None);
}
