//! Session tokens: a compact claim set `{sub, exp}` signed with a
//! server-held symmetric secret.
//!
//! The secret is configuration handed in by the caller (loaded once at
//! process start); rotating it invalidates every outstanding token. The
//! clock is likewise handed in as seconds since the Unix epoch, so that
//! expiry is decided by verified code: only the signing and signature
//! checking themselves are delegated to the `jsonwebtoken` crate.

use vstd::prelude::*;

verus! {

/// The claim set embedded in a session token: subject user id and absolute
/// expiry, in seconds since the Unix epoch.
#[derive(Debug, Clone, Copy, PartialEq, Eq, Structural)]
pub struct Claims {
    pub sub: i64,
    pub exp: u64,
}

/// How long a freshly issued token stays valid: 24 hours, a fixed policy.
pub const TOKEN_LIFETIME_SECS: u64 = 86400;

/// The token that signing a claim set with a secret produces; HS256 signing
/// is a function of the claims and the secret alone.
pub uninterp spec fn token_of(sub: int, exp: int, secret: Seq<u8>) -> Seq<char>;

/// What decoding a token with a secret yields: the embedded claims when the
/// signature verifies and the payload carries them, nothing otherwise; a
/// function of the token and the secret alone (expiry is judged elsewhere).
pub uninterp spec fn token_claims(token: Seq<char>, secret: Seq<u8>) -> Option<(int, int)>;

/// Relies on `jsonwebtoken::encode` with the default HS256 header: the token
/// depends on the claims and the secret alone, and `jsonwebtoken::decode`
/// with the same secret recovers the claims from it.
#[verifier::external_body]
fn encode_claims(claims: &Claims, secret: &[u8]) -> (t: String)
    ensures
        t@ == token_of(claims.sub as int, claims.exp as int, secret@),
        token_claims(t@, secret@) == Some((claims.sub as int, claims.exp as int)),
{
    let mut payload = serde_json::Map::new();
    payload.insert(String::from("sub"), serde_json::Value::from(claims.sub));
    payload.insert(String::from("exp"), serde_json::Value::from(claims.exp));
    jsonwebtoken::encode(
        &jsonwebtoken::Header::default(),
        &serde_json::Value::Object(payload),
        &jsonwebtoken::EncodingKey::from_secret(secret),
    ).unwrap()
}

/// Relies on `jsonwebtoken::decode` (HS256, signature check only: expiry
/// validation is switched off and decided by verified code instead): the
/// outcome depends on the token and the secret alone.
#[verifier::external_body]
fn decode_claims(token: &str, secret: &[u8]) -> (r: Option<Claims>)
    ensures
        (match r {
            Some(c) => token_claims(token@, secret@) == Some((c.sub as int, c.exp as int)),
            None => token_claims(token@, secret@) is None,
        }),
{
    let mut validation = jsonwebtoken::Validation::default();
    validation.validate_exp = false;
    let key = jsonwebtoken::DecodingKey::from_secret(secret);
    let data = jsonwebtoken::decode::<serde_json::Value>(token, &key, &validation).ok()?;
    let sub = data.claims.get("sub").and_then(|v| v.as_i64())?;
    let exp = data.claims.get("exp").and_then(|v| v.as_u64())?;
    Some(Claims { sub, exp })
}

/// What validating a token at time `now` yields: the subject id when the
/// token decodes and its expiry has not yet been reached, nothing otherwise.
/// An invalid signature and a passed expiry are indistinguishable here, on
/// purpose: the caller learns no reason for a rejection.
pub open spec fn spec_validate(token: Seq<char>, secret: Seq<u8>, now: u64) -> Option<int> {
    match token_claims(token, secret) {
        Some(c) => if (now as int) < c.1 {
            Some(c.0)
        } else {
            None
        },
        None => None,
    }
}

/// Issues a token for `user_id` that expires [`TOKEN_LIFETIME_SECS`] after
/// `now_secs` (the current time, in seconds since the Unix epoch), signed
/// with `secret`. Validating it with the same secret at issuance time yields
/// `user_id` back.
pub fn generate_jwt(user_id: i64, secret: &[u8], now_secs: u64) -> (t: String)
    requires
        now_secs + TOKEN_LIFETIME_SECS <= u64::MAX,
    ensures
        t@ == token_of(user_id as int, now_secs + TOKEN_LIFETIME_SECS, secret@),
        token_claims(t@, secret@) == Some(
            (user_id as int, now_secs + TOKEN_LIFETIME_SECS as int),
        ),
        spec_validate(t@, secret@, now_secs) == Some(user_id as int),
{
    let claims = Claims { sub: user_id, exp: now_secs + TOKEN_LIFETIME_SECS };
    encode_claims(&claims, secret)
}

/// Validates a token at time `now_secs`: the subject id when the signature
/// verifies and the expiry has not been reached; `None` otherwise, with the
/// reason withheld.
pub fn verify_jwt(token: &str, secret: &[u8], now_secs: u64) -> (r: Option<i64>)
    ensures
        (match r {
            Some(uid) => spec_validate(token@, secret@, now_secs) == Some(uid as int),
            None => spec_validate(token@, secret@, now_secs) is None,
        }),
{
    match decode_claims(token, secret) {
        Some(c) => if now_secs < c.exp {
            Some(c.sub)
        } else {
            None
        },
        None => None,
    }
}

/// A token carrying expiry `exp` validates to its subject at any time
/// strictly before `exp`; in particular, right after issuance.
pub proof fn lemma_validate_before_expiry(
    token: Seq<char>,
    secret: Seq<u8>,
    uid: int,
    exp: int,
    now: u64,
)
    requires
        token_claims(token, secret) == Some((uid, exp)),
        (now as int) < exp,
    ensures
        spec_validate(token, secret, now) == Some(uid),
{
}

/// A token validated at or after its expiry is rejected.
pub proof fn lemma_expired_rejected(
    token: Seq<char>,
    secret: Seq<u8>,
    uid: int,
    exp: int,
    now: u64,
)
    requires
        token_claims(token, secret) == Some((uid, exp)),
        exp <= now as int,
    ensures
        spec_validate(token, secret, now) is None,
{
}

/// A token that does not decode — a tampered signature, a foreign secret, a
/// mangled payload — is rejected at every time, exactly as an expired one.
pub proof fn lemma_undecodable_rejected(token: Seq<char>, secret: Seq<u8>, now: u64)
    requires
        token_claims(token, secret) is None,
    ensures
        spec_validate(token, secret, now) is None,
{
}

} // verus!
