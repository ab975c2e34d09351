use gymbuddy::token::{generate_jwt, verify_jwt, TOKEN_LIFETIME_SECS};

const SECRET: &[u8] = b"test-signing-secret";
const NOW: u64 = 1_700_000_000;

#[test]
fn validate_right_after_issue() {
    let token = generate_jwt(42, SECRET, NOW);
    assert_eq!(verify_jwt(&token, SECRET, NOW), Some(42));
}

#[test]
fn expired_token_rejected() {
    let token = generate_jwt(42, SECRET, NOW);
    // valid strictly before the expiry instant, rejected from it onward
    assert_eq!(verify_jwt(&token, SECRET, NOW + TOKEN_LIFETIME_SECS - 1), Some(42));
    assert_eq!(verify_jwt(&token, SECRET, NOW + TOKEN_LIFETIME_SECS), None);
    assert_eq!(verify_jwt(&token, SECRET, NOW + TOKEN_LIFETIME_SECS + 3600), None);
}

#[test]
fn tampered_token_rejected() {
    let token = generate_jwt(42, SECRET, NOW);
    assert_eq!(verify_jwt(&token, SECRET, NOW), Some(42));
    // flip one bit of the second character (inside the encoded header)
    let mut bytes = token.clone().into_bytes();
    bytes[1] ^= 1;
    let tampered = String::from_utf8(bytes).unwrap();
    assert_ne!(token, tampered);
    assert_eq!(verify_jwt(&tampered, SECRET, NOW), None);
}

#[test]
fn foreign_secret_rejected() {
    let token = generate_jwt(42, SECRET, NOW);
    assert_eq!(verify_jwt(&token, b"some other secret", NOW), None);
}

#[test]
fn garbage_token_rejected() {
    assert_eq!(verify_jwt("", SECRET, NOW), None);
    assert_eq!(verify_jwt("not-a-token", SECRET, NOW), None);
    assert_eq!(verify_jwt("a.b.c", SECRET, NOW), None);
}

#[test]
fn negative_subject_round_trips() {
    let token = generate_jwt(-7, SECRET, NOW);
    assert_eq!(verify_jwt(&token, SECRET, NOW), Some(-7));
}
