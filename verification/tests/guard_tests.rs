use gymbuddy::guard::{authenticate, extract_bearer_token, AuthRejection, AuthUser};
use gymbuddy::token::generate_jwt;

const SECRET: &[u8] = b"test-signing-secret";
const NOW: u64 = 1_700_000_000;

#[test]
fn extracts_bearer_token() {
    assert_eq!(extract_bearer_token("Bearer abc.def.ghi"), Some("abc.def.ghi"));
    assert_eq!(extract_bearer_token("Bearer "), Some(""));
}

#[test]
fn rejects_non_bearer_schemes() {
    assert_eq!(extract_bearer_token(""), None);
    assert_eq!(extract_bearer_token("Bearer"), None);
    assert_eq!(extract_bearer_token("bearer abc"), None);
    assert_eq!(extract_bearer_token("Basic dXNlcjpwdw=="), None);
    assert_eq!(extract_bearer_token("BearerX abc"), None);
}

#[test]
fn missing_header_rejected() {
    assert_eq!(authenticate(None, SECRET, NOW), Err(AuthRejection::MissingHeader));
}

#[test]
fn malformed_header_rejected() {
    assert_eq!(
        authenticate(Some("Token abc"), SECRET, NOW),
        Err(AuthRejection::MalformedHeader)
    );
    assert_eq!(authenticate(Some(""), SECRET, NOW), Err(AuthRejection::MalformedHeader));
}

#[test]
fn invalid_token_rejected() {
    assert_eq!(
        authenticate(Some("Bearer not.a.token"), SECRET, NOW),
        Err(AuthRejection::InvalidToken)
    );
}

#[test]
fn expired_token_via_guard_rejected() {
    let token = generate_jwt(9, SECRET, NOW);
    let header = format!("Bearer {}", token);
    assert_eq!(
        authenticate(Some(&header), SECRET, NOW + 90_000),
        Err(AuthRejection::InvalidToken)
    );
}

#[test]
fn valid_bearer_accepted() {
    let token = generate_jwt(9, SECRET, NOW);
    let header = format!("Bearer {}", token);
    assert_eq!(authenticate(Some(&header), SECRET, NOW), Ok(AuthUser { user_id: 9 }));
}
