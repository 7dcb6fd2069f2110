use garment_inventory::error::{AnyhowError, AppError, AuthError, StoreError};

#[test]
fn auth_errors_have_their_status_and_reason() {
    let cases = [
        (AuthError::ExpiredSignature, 401, "Expired signature"),
        (AuthError::MissingCredentials, 400, "Missing credentials"),
        (AuthError::TokenCreation, 500, "Token creation error"),
        (AuthError::InvalidToken, 400, "Invalid token"),
    ];
    for (error, code, reason) in cases {
        assert_eq!(error.status_code(), code);
        assert_eq!(error.reason(), reason);
        let body = error.into_response();
        assert_eq!(body.code, code);
        assert_eq!(body.reason, reason);
    }
}

#[test]
fn internal_errors_are_500_with_a_prefixed_reason() {
    let body = AnyhowError::new("disk full".to_string()).into_response();
    assert_eq!(body.code, 500);
    assert_eq!(body.reason, "Something went wrong: disk full");
    let body = AnyhowError::new(String::new()).into_response();
    assert_eq!(body.reason, "Something went wrong: ");
}

#[test]
fn app_errors_have_their_status() {
    assert_eq!(AppError::NotFound.status_code(), 404);
    assert_eq!(AppError::Conflict.status_code(), 409);
    assert_eq!(AppError::InvalidCredentials.status_code(), 401);
    assert_eq!(AppError::AuthError(AuthError::ExpiredSignature).status_code(), 401);
    assert_eq!(AppError::AuthError(AuthError::InvalidToken).status_code(), 400);
    assert_eq!(AppError::AnyhowError(AnyhowError::new("x".to_string())).status_code(), 500);
}

#[test]
fn app_errors_have_their_body() {
    let body = AppError::NotFound.into_response();
    assert_eq!((body.code, body.reason.as_str()), (404, "Record not found"));
    let body = AppError::Conflict.into_response();
    assert_eq!((body.code, body.reason.as_str()), (409, "Record already exists"));
    let body = AppError::InvalidCredentials.into_response();
    assert_eq!((body.code, body.reason.as_str()), (401, "Invalid credentials"));
    let body = AppError::AuthError(AuthError::MissingCredentials).into_response();
    assert_eq!((body.code, body.reason.as_str()), (400, "Missing credentials"));
    let body = AppError::AnyhowError(AnyhowError::new("boom".to_string())).into_response();
    assert_eq!((body.code, body.reason.as_str()), (500, "Something went wrong: boom"));
}

#[test]
fn store_errors_become_app_errors() {
    assert!(matches!(AppError::from_store(StoreError::NotFound), AppError::NotFound));
    assert!(matches!(AppError::from_store(StoreError::Conflict), AppError::Conflict));
    match AppError::from_store(StoreError::ForeignKey) {
        AppError::AnyhowError(e) => assert_eq!(e.0, "Owner does not exist"),
        other => panic!("unexpected {other:?}"),
    }
    match AppError::from_store(StoreError::Exhausted) {
        AppError::AnyhowError(e) => assert_eq!(e.0, "No identifier left"),
        other => panic!("unexpected {other:?}"),
    }
    assert_eq!(AppError::from_store(StoreError::ForeignKey).status_code(), 500);
}

#[test]
fn store_errors_have_their_reason() {
    assert_eq!(StoreError::NotFound.reason(), "Record not found");
    assert_eq!(StoreError::Conflict.reason(), "Record already exists");
    assert_eq!(StoreError::ForeignKey.reason(), "Owner does not exist");
    assert_eq!(StoreError::Exhausted.reason(), "No identifier left");
}

#[test]
fn app_error_wraps_auth_and_internal_errors() {
    assert!(matches!(
        AppError::from(AuthError::InvalidToken),
        AppError::AuthError(AuthError::InvalidToken)
    ));
    match AppError::from(AnyhowError::new("x".to_string())) {
        AppError::AnyhowError(e) => assert_eq!(e.0, "x"),
        other => panic!("unexpected {other:?}"),
    }
}
