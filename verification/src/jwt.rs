//! Identity tokens: who a request comes from, and until when that is believed.

use crate::error::AuthError;
use vstd::prelude::*;

verus! {

/// How long a token is valid from its issue: fifteen days, in seconds.
pub const TOKEN_LIFETIME: i64 = 1_296_000;

/// What a token says: the user, and the Unix time in seconds at which it
/// expires.
#[derive(Debug, Clone, Copy, PartialEq, Eq, Structural)]
pub struct Claims {
    pub user_id: i32,
    pub exp: i64,
}

/// The token that `jsonwebtoken::encode` makes of the claims `user_id` and
/// `exp` with the default header (HS256) and the secret `secret`; `None`
/// where it reports an error.
pub uninterp spec fn hs256_token(user_id: i32, exp: i64, secret: Seq<char>) -> Option<Seq<char>>;

/// The claims `user_id` and `exp` that `jsonwebtoken::decode` reads from
/// `token` under HS256 with the secret `secret`, the expiry not examined;
/// `None` where it reports an error or a claim is no integer of its type.
pub uninterp spec fn hs256_claims(token: Seq<char>, secret: Seq<char>) -> Option<(i32, i64)>;

/// The expiry of a token issued at `now`.
pub open spec fn expiry(now: i64) -> i64 {
    if now + TOKEN_LIFETIME <= i64::MAX {
        (now + TOKEN_LIFETIME) as i64
    } else {
        i64::MAX
    }
}

/// What the verification of a token comes to at the moment `now`, given the
/// claims that were read from it: without claims the token is invalid, at or
/// after its expiry it is expired, before it the claims stand.
pub open spec fn verdict(claims: Option<(i32, i64)>, now: i64) -> Result<Claims, AuthError> {
    match claims {
        None => Err(AuthError::InvalidToken),
        Some((user_id, exp)) => if now >= exp {
            Err(AuthError::ExpiredSignature)
        } else {
            Ok(Claims { user_id, exp })
        },
    }
}

/// What the verification of the bearer token `token` comes to at `now`.
pub open spec fn bearer_verdict(token: Option<Seq<char>>, secret: Seq<char>, now: i64) -> Result<
    Claims,
    AuthError,
> {
    match token {
        None => Err(AuthError::MissingCredentials),
        Some(t) => verdict(hs256_claims(t, secret), now),
    }
}

/// The characters of the token that a request presented, if it presented one.
pub open spec fn presented(token: Option<&str>) -> Option<Seq<char>> {
    match token {
        Some(t) => Some(t@),
        None => None,
    }
}

/// What signing comes to, given the token that was made.
pub open spec fn signed(token: Option<Seq<char>>, r: Result<String, AuthError>) -> bool {
    match token {
        Some(t) => r matches Ok(s) && s@ == t,
        None => r == Err::<String, AuthError>(AuthError::TokenCreation),
    }
}

/// `chrono::Utc::now().timestamp()`: the Unix time in seconds, as the system
/// clock gives it. Nothing is claimed of it. chrono stops the program where
/// the system clock stands before 1970.
#[verifier::external_body]
pub(crate) fn unix_now() -> (now: i64) {
    chrono::Utc::now().timestamp()
}

/// `jsonwebtoken::encode` with the default header (HS256), the claims
/// `user_id` and `exp`, and `secret` as the key. The result is the named
/// token. A token with an expiry that is not negative decodes, with the same
/// secret, to the claims it was made of.
#[verifier::external_body]
fn sign_hs256(user_id: i32, exp: i64, secret: &str) -> (token: Option<String>)
    ensures
        match token {
            Some(t) => hs256_token(user_id, exp, secret@) == Some(t@),
            None => hs256_token(user_id, exp, secret@) is None,
        },
        exp >= 0 ==> (token matches Some(t) ==> hs256_claims(t@, secret@) == Some(
            (user_id, exp),
        )),
{
    let mut claims = serde_json::Map::new();
    claims.insert("user_id".to_string(), serde_json::Value::from(user_id));
    claims.insert("exp".to_string(), serde_json::Value::from(exp));
    let key = jsonwebtoken::EncodingKey::from_secret(secret.as_bytes());
    jsonwebtoken::encode(&jsonwebtoken::Header::default(), &claims, &key).ok()
}

/// `jsonwebtoken::decode` under HS256 with `secret` as the key and the
/// check of the expiry switched off, then the claims `user_id` and `exp` as
/// integers. The result is the named claims.
#[verifier::external_body]
fn read_hs256(token: &str, secret: &str) -> (claims: Option<(i32, i64)>)
    ensures
        claims == hs256_claims(token@, secret@),
{
    let mut validation = jsonwebtoken::Validation::new(jsonwebtoken::Algorithm::HS256);
    validation.validate_exp = false;
    let key = jsonwebtoken::DecodingKey::from_secret(secret.as_bytes());
    let data = jsonwebtoken::decode::<serde_json::Value>(token, &key, &validation).ok()?;
    let user_id = i32::try_from(data.claims.get("user_id")?.as_i64()?).ok()?;
    let exp = data.claims.get("exp")?.as_i64()?;
    Some((user_id, exp))
}

impl Claims {
    /// The claims of a token for `user_id` issued at `now`: it expires
    /// fifteen days later.
    pub fn issued_at(user_id: i32, now: i64) -> (claims: Claims)
        ensures
            claims == (Claims { user_id, exp: expiry(now) }),
    {
        let exp: i64 = if now <= i64::MAX - TOKEN_LIFETIME {
            now + TOKEN_LIFETIME
        } else {
            i64::MAX
        };
        Claims { user_id, exp }
    }

    /// The claims of a token for `user_id` issued now.
    pub fn new(user_id: i32) -> (claims: Claims)
        ensures
            claims.user_id == user_id,
            exists|now: i64| claims.exp == #[trigger] expiry(now),
    {
        Claims::issued_at(user_id, unix_now())
    }

    /// What signing comes to, given the token that was made: the token, or
    /// `TokenCreation` where none was made.
    pub fn token_or_error(token: Option<String>) -> (r: Result<String, AuthError>)
        ensures
            signed(
                match token {
                    Some(t) => Some(t@),
                    None => None,
                },
                r,
            ),
    {
        match token {
            Some(token) => Ok(token),
            None => Err(AuthError::TokenCreation),
        }
    }

    /// The signed token for these claims; `TokenCreation` where signing
    /// fails. A token with an expiry that is not negative reads back, with
    /// the same secret, as these claims.
    pub fn encode(&self, secret: &str) -> (r: Result<String, AuthError>)
        ensures
            signed(hs256_token(self.user_id, self.exp, secret@), r),
            self.exp >= 0 ==> (r matches Ok(t) ==> hs256_claims(t@, secret@) == Some(
                (self.user_id, self.exp),
            )),
    {
        Claims::token_or_error(sign_hs256(self.user_id, self.exp, secret))
    }

    /// What the verification of a token comes to at `now`, given the claims
    /// read from it.
    pub fn check(claims: Option<(i32, i64)>, now: i64) -> (r: Result<Claims, AuthError>)
        ensures
            r == verdict(claims, now),
    {
        match claims {
            None => Err(AuthError::InvalidToken),
            Some((user_id, exp)) => {
                if now >= exp {
                    Err(AuthError::ExpiredSignature)
                } else {
                    Ok(Claims { user_id, exp })
                }
            },
        }
    }

    /// Verifies `token` at the moment `now`: `InvalidToken` where it does not
    /// decode with `secret`, `ExpiredSignature` where `now` is at or after
    /// its expiry, its claims otherwise.
    pub fn decode_at(token: &str, secret: &str, now: i64) -> (r: Result<Claims, AuthError>)
        ensures
            r == verdict(hs256_claims(token@, secret@), now),
    {
        Claims::check(read_hs256(token, secret), now)
    }

    /// Verifies `token` now.
    pub fn decode(token: &str, secret: &str) -> (r: Result<Claims, AuthError>)
        ensures
            exists|now: i64| r == #[trigger] verdict(hs256_claims(token@, secret@), now),
    {
        let now = unix_now();
        Claims::decode_at(token, secret, now)
    }

    /// Authenticates a request at the moment `now` by the bearer token it
    /// presented: `MissingCredentials` where it presented none, else as
    /// `decode_at`.
    pub fn from_bearer_at(token: Option<&str>, secret: &str, now: i64) -> (r: Result<
        Claims,
        AuthError,
    >)
        ensures
            r == bearer_verdict(presented(token), secret@, now),
    {
        match token {
            None => Err(AuthError::MissingCredentials),
            Some(t) => Claims::decode_at(t, secret, now),
        }
    }

    /// Authenticates a request now by the bearer token it presented.
    pub fn from_bearer(token: Option<&str>, secret: &str) -> (r: Result<Claims, AuthError>)
        ensures
            exists|now: i64| r == #[trigger] bearer_verdict(presented(token), secret@, now),
    {
        let now = unix_now();
        Claims::from_bearer_at(token, secret, now)
    }
}

} // verus!
