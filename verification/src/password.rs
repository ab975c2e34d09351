//! Password credentials: one-way hashing with a fresh random salt, and
//! verification against the stored digest.
//!
//! The digest is self-describing (PHC string format): it embeds the
//! algorithm, its parameters and the salt, so verification needs only the
//! digest and the candidate password. A corrupt stored digest fails closed —
//! verification returns `false`, it never panics the serving path.

use vstd::prelude::*;

use crate::models::User;

verus! {

/// Whether verification accepts `digest` for `password`: re-deriving the
/// hash with the parameters and salt embedded in the digest reproduces the
/// digest's hash part. A function of the digest and the password alone.
pub uninterp spec fn digest_matches(digest: Seq<char>, password: Seq<char>) -> bool;

/// Longest password accepted, in characters: argon2 rejects passwords over
/// `u32::MAX` bytes, and a character encodes to at most four bytes.
pub const MAX_PASSWORD_CHARS: usize = 0x3FFF_FFFF;

/// Hashes a password into a self-describing digest, salted with a fresh
/// random salt from a cryptographically secure source. Each call draws its
/// own salt, so two digests of one password differ — yet each verifies.
///
/// Relies on argon2's `Argon2::hash_password` with a salt from
/// `SaltString::generate(OsRng)`: the digest it returns verifies against the
/// password it was derived from, and within the admitted length it rejects
/// no password.
#[verifier::external_body]
pub fn hash_password(password: &str) -> (digest: String)
    requires
        password@.len() <= MAX_PASSWORD_CHARS,
    ensures
        digest_matches(digest@, password@),
{
    let salt = argon2::password_hash::SaltString::generate(&mut rand::rngs::OsRng);
    let argon = argon2::Argon2::default();
    argon2::PasswordHasher::hash_password(&argon, password.as_bytes(), &salt).unwrap().to_string()
}

/// Verifies a password against a stored digest; a malformed digest or any
/// internal derivation error fails closed to `false`.
///
/// Relies on argon2's `PasswordHash::new` and `Argon2::verify_password`:
/// both depend on the digest and the password alone.
#[verifier::external_body]
pub fn verify_password(hashed: &str, password: &str) -> (r: bool)
    ensures
        r == digest_matches(hashed@, password@),
{
    let parsed = match argon2::password_hash::PasswordHash::new(hashed) {
        Ok(parsed) => parsed,
        Err(_) => return false,
    };
    let argon = argon2::Argon2::default();
    argon2::PasswordVerifier::verify_password(&argon, password.as_bytes(), &parsed).is_ok()
}

/// What a login attempt yields: the user's id exactly when an account was
/// found and its stored digest matches the password. An unknown account and
/// a wrong password are indistinguishable — both yield nothing, so a caller
/// cannot help a client enumerate accounts.
pub open spec fn spec_check_credentials(user: Option<User>, password: Seq<char>) -> Option<i64> {
    match user {
        Some(u) => if digest_matches(u.password_hash@, password) {
            Some(u.id)
        } else {
            None
        },
        None => None,
    }
}

/// Decides a login attempt from the account looked up by the boundary layer
/// (if any) and the candidate password.
pub fn check_credentials(user: Option<&User>, password: &str) -> (r: Option<i64>)
    ensures
        r == spec_check_credentials(
            match user {
                Some(u) => Some(*u),
                None => None,
            },
            password@,
        ),
{
    match user {
        Some(u) => if verify_password(u.password_hash.as_str(), password) {
            Some(u.id)
        } else {
            None
        },
        None => None,
    }
}

} // verus!
