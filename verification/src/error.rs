//! Error kinds and the `{code, reason}` envelope they are reported in.

use vstd::prelude::*;
use vstd::std_specs::convert::FromSpecImpl;
use vstd::string::StringExecFns;

verus! {

/// Why a request could not be authenticated.
#[derive(Debug, Clone, Copy, PartialEq, Eq, Structural)]
pub enum AuthError {
    MissingCredentials,
    TokenCreation,
    InvalidToken,
    ExpiredSignature,
}

/// Why a repository operation failed.
#[derive(Debug, Clone, Copy, PartialEq, Eq, Structural)]
pub enum StoreError {
    /// No record has the id, or the record belongs to another user.
    NotFound,
    /// A unique value (a user's phone number) is already taken.
    Conflict,
    /// The record that the new one would belong to does not exist.
    ForeignKey,
    /// The table has handed out its last id.
    Exhausted,
}

/// A failure that fits no other kind, with a short description.
#[derive(Debug)]
pub struct AnyhowError(pub String);

/// Everything a request can fail with.
#[derive(Debug)]
pub enum AppError {
    AuthError(AuthError),
    NotFound,
    Conflict,
    InvalidCredentials,
    AnyhowError(AnyhowError),
}

/// The body of an error response.
#[derive(Debug)]
pub struct ErrorBody {
    pub code: u16,
    pub reason: String,
}

/// The HTTP status of an authentication error: 401 for an expired token,
/// 500 where no token could be made, 400 otherwise.
pub open spec fn auth_status(e: AuthError) -> u16 {
    match e {
        AuthError::ExpiredSignature => 401,
        AuthError::MissingCredentials => 400,
        AuthError::TokenCreation => 500,
        AuthError::InvalidToken => 400,
    }
}

/// The message of an authentication error.
pub open spec fn auth_reason(e: AuthError) -> Seq<char> {
    match e {
        AuthError::ExpiredSignature => "Expired signature"@,
        AuthError::MissingCredentials => "Missing credentials"@,
        AuthError::TokenCreation => "Token creation error"@,
        AuthError::InvalidToken => "Invalid token"@,
    }
}

/// The message of a repository error.
pub open spec fn store_reason(e: StoreError) -> Seq<char> {
    match e {
        StoreError::NotFound => "Record not found"@,
        StoreError::Conflict => "Record already exists"@,
        StoreError::ForeignKey => "Owner does not exist"@,
        StoreError::Exhausted => "No identifier left"@,
    }
}

/// The HTTP status of an error: 404 for what is not there, 409 for a
/// conflict, 401 for credentials that do not match, 500 for an internal
/// failure.
pub open spec fn app_status(e: AppError) -> u16 {
    match e {
        AppError::AuthError(a) => auth_status(a),
        AppError::NotFound => 404,
        AppError::Conflict => 409,
        AppError::InvalidCredentials => 401,
        AppError::AnyhowError(_) => 500,
    }
}

/// The message of an error; that of an internal failure stands behind a
/// fixed prefix.
pub open spec fn app_reason(e: AppError) -> Seq<char> {
    match e {
        AppError::AuthError(a) => auth_reason(a),
        AppError::NotFound => store_reason(StoreError::NotFound),
        AppError::Conflict => store_reason(StoreError::Conflict),
        AppError::InvalidCredentials => "Invalid credentials"@,
        AppError::AnyhowError(a) => "Something went wrong: "@ + a.0@,
    }
}

/// Whether `r` is the request-level error that the repository error `e`
/// becomes: absence and conflict keep their kind, the rest is an internal
/// failure that carries the repository's reason.
pub open spec fn is_app_of_store(e: StoreError, r: AppError) -> bool {
    match e {
        StoreError::NotFound => r is NotFound,
        StoreError::Conflict => r is Conflict,
        _ => r matches AppError::AnyhowError(a) && a.0@ == store_reason(e),
    }
}

impl AuthError {
    /// The HTTP status of this error.
    pub fn status_code(&self) -> (code: u16)
        ensures
            code == auth_status(*self),
    {
        match self {
            AuthError::ExpiredSignature => 401,
            AuthError::MissingCredentials => 400,
            AuthError::TokenCreation => 500,
            AuthError::InvalidToken => 400,
        }
    }

    /// The message shown to the caller.
    pub fn reason(&self) -> (text: String)
        ensures
            text@ == auth_reason(*self),
    {
        match self {
            AuthError::ExpiredSignature => String::from_str("Expired signature"),
            AuthError::MissingCredentials => String::from_str("Missing credentials"),
            AuthError::TokenCreation => String::from_str("Token creation error"),
            AuthError::InvalidToken => String::from_str("Invalid token"),
        }
    }

    /// The response for this error: its status and its body.
    pub fn into_response(self) -> (body: ErrorBody)
        ensures
            body.code == auth_status(self),
            body.reason@ == auth_reason(self),
    {
        ErrorBody { code: self.status_code(), reason: self.reason() }
    }
}

impl StoreError {
    /// The message shown to the caller.
    pub fn reason(&self) -> (text: String)
        ensures
            text@ == store_reason(*self),
    {
        match self {
            StoreError::NotFound => String::from_str("Record not found"),
            StoreError::Conflict => String::from_str("Record already exists"),
            StoreError::ForeignKey => String::from_str("Owner does not exist"),
            StoreError::Exhausted => String::from_str("No identifier left"),
        }
    }
}

impl AnyhowError {
    /// An internal failure with the given description.
    pub fn new(message: String) -> (e: AnyhowError)
        ensures
            e.0 == message,
    {
        AnyhowError(message)
    }

    /// The response for this error: status 500 and the description behind a
    /// fixed prefix.
    pub fn into_response(self) -> (body: ErrorBody)
        ensures
            body.code == 500,
            body.reason@ == "Something went wrong: "@ + self.0@,
    {
        let reason = String::from_str("Something went wrong: ").concat(self.0.as_str());
        ErrorBody { code: 500, reason }
    }
}

impl AppError {
    /// The request-level error for a repository error.
    pub fn from_store(e: StoreError) -> (r: AppError)
        ensures
            is_app_of_store(e, r),
    {
        match e {
            StoreError::NotFound => AppError::NotFound,
            StoreError::Conflict => AppError::Conflict,
            _ => AppError::AnyhowError(AnyhowError(e.reason())),
        }
    }

    /// The HTTP status of this error.
    pub fn status_code(&self) -> (code: u16)
        ensures
            code == app_status(*self),
    {
        match self {
            AppError::AuthError(a) => a.status_code(),
            AppError::NotFound => 404,
            AppError::Conflict => 409,
            AppError::InvalidCredentials => 401,
            AppError::AnyhowError(_) => 500,
        }
    }

    /// The response for this error: its status and its body.
    pub fn into_response(self) -> (body: ErrorBody)
        ensures
            body.code == app_status(self),
            body.reason@ == app_reason(self),
    {
        match self {
            AppError::AuthError(a) => a.into_response(),
            AppError::NotFound => ErrorBody { code: 404, reason: StoreError::NotFound.reason() },
            AppError::Conflict => ErrorBody { code: 409, reason: StoreError::Conflict.reason() },
            AppError::InvalidCredentials => ErrorBody {
                code: 401,
                reason: String::from_str("Invalid credentials"),
            },
            AppError::AnyhowError(a) => a.into_response(),
        }
    }
}

impl From<AuthError> for AppError {
    fn from(e: AuthError) -> (r: AppError) {
        AppError::AuthError(e)
    }
}

impl FromSpecImpl<AuthError> for AppError {
    open spec fn obeys_from_spec() -> bool {
        true
    }

    open spec fn from_spec(e: AuthError) -> AppError {
        AppError::AuthError(e)
    }
}

impl From<AnyhowError> for AppError {
    fn from(e: AnyhowError) -> (r: AppError) {
        AppError::AnyhowError(e)
    }
}

impl FromSpecImpl<AnyhowError> for AppError {
    open spec fn obeys_from_spec() -> bool {
        true
    }

    open spec fn from_spec(e: AnyhowError) -> AppError {
        AppError::AnyhowError(e)
    }
}

} // verus!
