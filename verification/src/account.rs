//! Accounts: registering, logging in with phone number and password, and
//! leaving.

use crate::database::{Database, DbState};
use crate::entity::User;
use crate::error::{is_app_of_store, AnyhowError, AppError, AuthError};
use crate::jwt::{expiry, hs256_token, unix_now, Claims};
use crate::user::{CreateUserParams, UserService};
use vstd::prelude::*;
use vstd::string::StringExecFns;

verus! {

/// What a login presents.
#[derive(Debug)]
pub struct LoginParams {
    pub phone_number: String,
    pub password: String,
}

/// What is shown of a user: everything but the password.
#[derive(Debug, PartialEq, Eq)]
pub struct UserInfo {
    pub id: i32,
    pub username: String,
    pub phone_number: String,
    pub create_at: i64,
}

/// What a login returns: a token for the user, and the user.
#[derive(Debug)]
pub struct LoginResponse {
    pub token: String,
    pub user: UserInfo,
}

/// What `bcrypt::verify` says of `password` and `hash`: whether they match;
/// `None` where it reports an error, as it does of a malformed hash.
pub uninterp spec fn bcrypt_verdict(password: Seq<char>, hash: Seq<char>) -> Option<bool>;

/// What is shown of `user`.
pub open spec fn info_of(user: User) -> UserInfo {
    UserInfo {
        id: user.id,
        username: user.username,
        phone_number: user.phone_number,
        create_at: user.create_at,
    }
}

/// Whether `e` is the internal failure with the description `reason`.
pub open spec fn is_internal(e: AppError, reason: Seq<char>) -> bool {
    e matches AppError::AnyhowError(a) && a.0@ == reason
}

/// What is said where a stored hash is no hash.
pub open spec fn unreadable_hash() -> Seq<char> {
    "the stored password hash cannot be read"@
}

/// What is said where no hash can be made.
pub open spec fn hashing_failed() -> Seq<char> {
    "the password cannot be hashed"@
}

/// What the comparison of a password with a stored hash comes to: a match
/// passes, a mismatch is `InvalidCredentials`, an error of the comparison is
/// an internal failure.
pub open spec fn password_outcome(verdict: Option<bool>, r: Result<(), AppError>) -> bool {
    match verdict {
        Some(true) => r is Ok,
        Some(false) => r matches Err(AppError::InvalidCredentials),
        None => r matches Err(e) && is_internal(e, unreadable_hash()),
    }
}

/// Whether `r` is what the user `user` is granted at the moment `now` on
/// presenting `password`: what the comparison of the password with the
/// stored hash comes to, else `TokenCreation` where no token can be made,
/// else the token for the user, expiring fifteen days after `now`, and the
/// user without the password.
pub open spec fn grant_outcome(
    user: User,
    password: Seq<char>,
    secret: Seq<char>,
    now: i64,
    r: Result<LoginResponse, AppError>,
) -> bool {
    match bcrypt_verdict(password, user.password@) {
        None => r matches Err(e) && is_internal(e, unreadable_hash()),
        Some(false) => r matches Err(AppError::InvalidCredentials),
        Some(true) => match hs256_token(user.id, expiry(now), secret) {
            None => r matches Err(AppError::AuthError(AuthError::TokenCreation)),
            Some(t) => r matches Ok(l) && l.token@ == t && l.user == info_of(user),
        },
    }
}

/// Whether `r` is what a login with `p` comes to in the state `s` at the
/// moment `now`: `NotFound` where no user has the phone number, else what
/// the user with that phone number is granted.
pub open spec fn login_outcome(
    s: DbState,
    p: LoginParams,
    secret: Seq<char>,
    now: i64,
    r: Result<LoginResponse, AppError>,
) -> bool {
    match s.find_user_by_phone(p.phone_number@) {
        Err(_) => r matches Err(AppError::NotFound),
        Ok(user) => grant_outcome(user, p.password@, secret, now, r),
    }
}

/// The user that registering `p` stores, once the password has been hashed
/// to `hash`.
pub open spec fn hashed(p: CreateUserParams, hash: String) -> CreateUserParams {
    CreateUserParams { password: hash, ..p }
}

/// Whether `next` and `r` are what registering `p` comes to in the state
/// `s`, given the hash made of the password: without a hash nothing is stored
/// and the failure is internal; with one, the user is created with the hash
/// in place of the password, and shown without it.
pub open spec fn register_outcome(
    s: DbState,
    p: CreateUserParams,
    hash: Option<String>,
    next: DbState,
    r: Result<UserInfo, AppError>,
) -> bool {
    match hash {
        None => next == s && (r matches Err(e) && is_internal(e, hashing_failed())),
        Some(h) => next == s.create_user(hashed(p, h)).0 && match s.create_user(hashed(p, h)).1 {
            Ok(user) => r matches Ok(info) && info == info_of(user),
            Err(e) => r matches Err(a) && is_app_of_store(e, a),
        },
    }
}

/// Whether `next` and `r` are what the leaving of user `id` comes to in the
/// state `s`.
pub open spec fn deregister_outcome(
    s: DbState,
    id: i32,
    next: DbState,
    r: Result<UserInfo, AppError>,
) -> bool {
    next == s.delete_user(id).0 && match s.delete_user(id).1 {
        Ok(user) => r matches Ok(info) && info == info_of(user),
        Err(e) => r matches Err(a) && is_app_of_store(e, a),
    }
}

/// `bcrypt::verify`: whether `password` matches `hash`. The result is the
/// named verdict.
#[verifier::external_body]
fn compare_password(password: &str, hash: &str) -> (verdict: Option<bool>)
    ensures
        verdict == bcrypt_verdict(password@, hash@),
{
    bcrypt::verify(password, hash).ok()
}

/// `bcrypt::hash` at the default cost, with a salt of its own choosing. Two
/// calls on one password differ; every hash that comes back matches the
/// password it was made of.
#[verifier::external_body]
fn hash_password(password: &str) -> (hash: Option<String>)
    ensures
        hash matches Some(h) ==> bcrypt_verdict(password@, h@) == Some(true),
{
    bcrypt::hash(password, bcrypt::DEFAULT_COST).ok()
}

impl User {
    /// What is shown of this user.
    pub fn info(&self) -> (info: UserInfo)
        ensures
            info == info_of(*self),
    {
        UserInfo {
            id: self.id,
            username: self.username.clone(),
            phone_number: self.phone_number.clone(),
            create_at: self.create_at,
        }
    }
}

/// What the comparison of a password with a stored hash comes to.
pub fn check_password(verdict: Option<bool>) -> (r: Result<(), AppError>)
    ensures
        password_outcome(verdict, r),
{
    match verdict {
        Some(true) => Ok(()),
        Some(false) => Err(AppError::InvalidCredentials),
        None => Err(
            AppError::AnyhowError(
                AnyhowError(String::from_str("the stored password hash cannot be read")),
            ),
        ),
    }
}

/// The columns to store for a registration, given the hash made of the
/// password: the hash stands in the password's place. Without a hash the
/// registration fails.
pub fn with_hash(params: CreateUserParams, hash: Option<String>) -> (r: Result<
    CreateUserParams,
    AppError,
>)
    ensures
        match hash {
            Some(h) => r == Ok::<CreateUserParams, AppError>(hashed(params, h)),
            None => r matches Err(e) && is_internal(e, hashing_failed()),
        },
{
    match hash {
        Some(h) => Ok(
            CreateUserParams {
                username: params.username,
                password: h,
                phone_number: params.phone_number,
            },
        ),
        None => Err(
            AppError::AnyhowError(AnyhowError(String::from_str("the password cannot be hashed"))),
        ),
    }
}

/// The columns to store for a registration: the password is hashed, and the
/// hash stands in its place. Every hash that comes back matches the password.
pub fn with_hashed_password(params: CreateUserParams) -> (r: Result<CreateUserParams, AppError>)
    ensures
        match r {
            Ok(stored) => bcrypt_verdict(params.password@, stored.password@) == Some(true)
                && stored == hashed(params, stored.password),
            Err(e) => is_internal(e, hashing_failed()),
        },
{
    let hash = hash_password(params.password.as_str());
    with_hash(params, hash)
}

/// Registers a user, given the hash made of the password.
pub fn register_with_hash(db: &mut Database, params: CreateUserParams, hash: Option<String>) -> (r:
    Result<UserInfo, AppError>)
    requires
        old(db).wf(),
    ensures
        final(db).wf(),
        register_outcome(old(db)@, params, hash, final(db)@, r),
{
    match with_hash(params, hash) {
        Err(e) => Err(e),
        Ok(stored) => {
            match UserService::create(db, stored) {
                Ok(user) => Ok(user.info()),
                Err(e) => Err(AppError::from_store(e)),
            }
        },
    }
}

/// Registers a user: hashes the password and stores the user with the hash.
/// Fails with `Conflict` where the phone number is taken. Of a stored user
/// the hash matches the password that was given.
pub fn register(db: &mut Database, params: CreateUserParams) -> (r: Result<UserInfo, AppError>)
    requires
        old(db).wf(),
    ensures
        final(db).wf(),
        exists|hash: Option<String>|
            {
                &&& #[trigger] register_outcome(old(db)@, params, hash, final(db)@, r)
                &&& hash matches Some(h) ==> bcrypt_verdict(params.password@, h@) == Some(true)
            },
{
    let hash = hash_password(params.password.as_str());
    register_with_hash(db, params, hash)
}

/// What a login returns to the user `user` whose password has matched,
/// given the token that was made: the token and the user without the
/// password, or the failure to make a token.
pub fn welcome(user: &User, token: Result<String, AuthError>) -> (r: Result<
    LoginResponse,
    AppError,
>)
    ensures
        match token {
            Ok(t) => r matches Ok(l) && l.token == t && l.user == info_of(*user),
            Err(e) => r matches Err(AppError::AuthError(a)) && a == e,
        },
{
    match token {
        Ok(token) => Ok(LoginResponse { token, user: user.info() }),
        Err(e) => Err(AppError::AuthError(e)),
    }
}

/// Grants the user `user` a token at the moment `now`, if `password` matches
/// the stored hash.
pub fn grant(user: &User, password: &str, secret: &str, now: i64) -> (r: Result<
    LoginResponse,
    AppError,
>)
    ensures
        grant_outcome(*user, password@, secret@, now, r),
{
    let verdict = compare_password(password, user.password.as_str());
    match check_password(verdict) {
        Ok(()) => {},
        Err(e) => {
            return Err(e);
        },
    }
    welcome(user, Claims::issued_at(user.id, now).encode(secret))
}

/// Grants the user `user` a token now, if `password` matches the stored hash.
pub fn grant_now(user: &User, password: &str, secret: &str) -> (r: Result<LoginResponse, AppError>)
    ensures
        exists|now: i64| #[trigger] grant_outcome(*user, password@, secret@, now, r),
{
    let now = unix_now();
    grant(user, password, secret, now)
}

/// Logs in at the moment `now`.
pub fn login_at(db: &Database, params: LoginParams, secret: &str, now: i64) -> (r: Result<
    LoginResponse,
    AppError,
>)
    requires
        db.wf(),
    ensures
        login_outcome(db@, params, secret@, now, r),
{
    let user = match UserService::find_by_phone_number(db, params.phone_number.clone()) {
        Ok(user) => user,
        Err(_) => {
            return Err(AppError::NotFound);
        },
    };
    grant(&user, params.password.as_str(), secret, now)
}

/// Logs in now: finds the user by phone number, compares the password with
/// the stored hash, and issues a token for fifteen days.
pub fn login(db: &Database, params: LoginParams, secret: &str) -> (r: Result<
    LoginResponse,
    AppError,
>)
    requires
        db.wf(),
    ensures
        exists|now: i64| #[trigger] login_outcome(db@, params, secret@, now, r),
{
    let now = unix_now();
    login_at(db, params, secret, now)
}

/// Deletes the user `user_id` with everything that belongs to it, and shows
/// the user as it was.
pub fn deregister(db: &mut Database, user_id: i32) -> (r: Result<UserInfo, AppError>)
    requires
        old(db).wf(),
    ensures
        final(db).wf(),
        deregister_outcome(old(db)@, user_id, final(db)@, r),
{
    match UserService::delete(db, user_id) {
        Ok(user) => Ok(user.info()),
        Err(e) => Err(AppError::from_store(e)),
    }
}

} // verus!
