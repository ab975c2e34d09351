//! The access guard: extracts the bearer token from an inbound request's
//! `Authorization` header value and validates it, producing the
//! authenticated principal or an unauthorized rejection — before any handler
//! logic runs. Authentication failure is never retried, only reported.

use vstd::prelude::*;

use crate::token::{spec_validate, verify_jwt};

verus! {

/// The authenticated principal attached to a request that passed the guard.
#[derive(Debug, Clone, Copy, PartialEq, Eq, Structural)]
pub struct AuthUser {
    pub user_id: i64,
}

/// Why the guard rejected a request. The boundary layer answers all three
/// cases identically (unauthorized), so no detail leaks to the client.
#[derive(Debug, Clone, Copy, PartialEq, Eq, Structural)]
pub enum AuthRejection {
    /// No `Authorization` header was present.
    MissingHeader,
    /// The header value does not follow the `Bearer <token>` scheme.
    MalformedHeader,
    /// The token's signature is invalid or its expiry has passed.
    InvalidToken,
}

/// The token of a `Bearer <token>` header value.
pub open spec fn bearer_token_of(header: Seq<char>) -> Option<Seq<char>> {
    if header.len() >= 7 && header.subrange(0, 7) == "Bearer "@ {
        Some(header.skip(7))
    } else {
        None
    }
}

/// An `Option<&str>` as an optional character sequence.
pub open spec fn header_view(header: Option<&str>) -> Option<Seq<char>> {
    match header {
        Some(h) => Some(h@),
        None => None,
    }
}

/// What the guard decides for a request carrying `header` at time `now`.
pub open spec fn spec_authenticate(header: Option<Seq<char>>, secret: Seq<u8>, now: u64) -> Result<
    int,
    AuthRejection,
> {
    match header {
        None => Err(AuthRejection::MissingHeader),
        Some(h) => match bearer_token_of(h) {
            None => Err(AuthRejection::MalformedHeader),
            Some(t) => match spec_validate(t, secret, now) {
                Some(uid) => Ok(uid),
                None => Err(AuthRejection::InvalidToken),
            },
        },
    }
}

/// Splits a `Bearer <token>` header value into its token.
pub fn extract_bearer_token(header: &str) -> (r: Option<&str>)
    ensures
        (match r {
            Some(t) => bearer_token_of(header@) == Some(t@),
            None => bearer_token_of(header@) is None,
        }),
{
    let len = header.unicode_len();
    if len < 7 {
        return None;
    }
    let bearer = "Bearer ";
    proof {
        reveal_strlit("Bearer ");
    }
    let mut i: usize = 0;
    while i < 7
        invariant
            i <= 7,
            len == header@.len(),
            len >= 7,
            bearer@ == "Bearer "@,
            bearer@.len() == 7,
            forall|k: int| 0 <= k < i ==> header@[k] == "Bearer "@[k],
        decreases 7 - i,
    {
        if header.get_char(i) != bearer.get_char(i) {
            proof {
                assert(header@.subrange(0, 7) != "Bearer "@) by {
                    if header@.subrange(0, 7) == "Bearer "@ {
                        assert(header@.subrange(0, 7)[i as int] == header@[i as int]);
                    }
                }
            }
            return None;
        }
        i = i + 1;
    }
    proof {
        assert(header@.subrange(0, 7) =~= "Bearer "@);
    }
    let token = header.substring_char(7, len);
    proof {
        assert(token@ =~= header@.skip(7));
    }
    Some(token)
}

/// The Access Guard: decides a request from its raw `Authorization` header
/// value, the signing secret and the current time. On success the caller
/// gets the principal to thread into the handler; on any failure the request
/// is to be answered unauthorized, with no reason disclosed.
pub fn authenticate(header: Option<&str>, secret: &[u8], now_secs: u64) -> (r: Result<
    AuthUser,
    AuthRejection,
>)
    ensures
        (match r {
            Ok(user) => spec_authenticate(header_view(header), secret@, now_secs) == Ok::<
                int,
                AuthRejection,
            >(user.user_id as int),
            Err(rej) => spec_authenticate(header_view(header), secret@, now_secs) == Err::<
                int,
                AuthRejection,
            >(rej),
        }),
{
    let h = match header {
        Some(h) => h,
        None => {
            return Err(AuthRejection::MissingHeader);
        },
    };
    let token = match extract_bearer_token(h) {
        Some(t) => t,
        None => {
            return Err(AuthRejection::MalformedHeader);
        },
    };
    match verify_jwt(token, secret, now_secs) {
        Some(user_id) => Ok(AuthUser { user_id }),
        None => Err(AuthRejection::InvalidToken),
    }
}

} // verus!
