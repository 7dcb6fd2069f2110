use garment_inventory::account::{
    check_password, deregister, grant, grant_now, login, login_at, register, register_with_hash,
    welcome, with_hash, with_hashed_password, LoginParams,
};
use garment_inventory::error::AuthError;
use garment_inventory::entity::User;
use garment_inventory::boss::{BossService, CreateBossParams};
use garment_inventory::database::Database;
use garment_inventory::error::{AppError, StoreError};
use garment_inventory::jwt::{Claims, TOKEN_LIFETIME};
use garment_inventory::user::{CreateUserParams, UserService};

fn account_params(username: &str, password: &str, phone: &str) -> CreateUserParams {
    CreateUserParams {
        username: username.to_string(),
        password: password.to_string(),
        phone_number: phone.to_string(),
    }
}

fn attempt(phone: &str, password: &str) -> LoginParams {
    LoginParams { phone_number: phone.to_string(), password: password.to_string() }
}

#[test]
fn registered_user_logs_in_with_phone_and_password() {
    let mut db = Database::new();
    db.advance_clock(1_700_000_000);
    let info = register(&mut db, account_params("ann", "pw", "111")).unwrap();
    assert_eq!(info.id, 1);
    assert_eq!(info.username, "ann");
    assert_eq!(info.phone_number, "111");
    assert_eq!(info.create_at, 1_700_000_000);

    let response = login_at(&db, attempt("111", "pw"), "secret", 5_000).unwrap();
    assert_eq!(response.user, info);
    assert_eq!(response.user.phone_number, "111");
    let claims = Claims::decode_at(&response.token, "secret", 5_001).unwrap();
    assert_eq!(claims, Claims { user_id: 1, exp: 5_000 + TOKEN_LIFETIME });
}

#[test]
fn wrong_password_is_invalid_credentials_not_an_internal_error() {
    let mut db = Database::new();
    register(&mut db, account_params("ann", "pw", "111")).unwrap();
    let error = login_at(&db, attempt("111", "wrong"), "secret", 5_000).unwrap_err();
    assert!(matches!(error, AppError::InvalidCredentials));
    assert_eq!(error.status_code(), 401);
    assert_ne!(error.status_code(), 500);
}

#[test]
fn unknown_phone_number_is_not_found() {
    let mut db = Database::new();
    register(&mut db, account_params("ann", "pw", "111")).unwrap();
    let error = login_at(&db, attempt("112", "pw"), "secret", 5_000).unwrap_err();
    assert!(matches!(error, AppError::NotFound));
    let error = login(&Database::new(), attempt("111", "pw"), "secret").unwrap_err();
    assert!(matches!(error, AppError::NotFound));
}

#[test]
fn login_now_issues_a_token_that_verifies_now() {
    let mut db = Database::new();
    register(&mut db, account_params("ann", "pw", "111")).unwrap();
    let response = login(&db, attempt("111", "pw"), "secret").unwrap();
    let claims = Claims::decode(&response.token, "secret").unwrap();
    assert_eq!(claims.user_id, response.user.id);
}

#[test]
fn the_password_is_stored_hashed() {
    let mut db = Database::new();
    register(&mut db, account_params("ann", "pw", "111")).unwrap();
    let stored = UserService::find_by_phone_number(&db, "111".to_string()).unwrap();
    assert_ne!(stored.password, "pw");
    assert!(stored.password.starts_with("$2"));
    assert_eq!(stored.password.len(), 60);
    assert_eq!(stored.username, "ann");
}

#[test]
fn a_phone_number_registers_once() {
    let mut db = Database::new();
    register(&mut db, account_params("ann", "pw", "111")).unwrap();
    let error = register(&mut db, account_params("bob", "other", "111")).unwrap_err();
    assert!(matches!(error, AppError::Conflict));
    assert_eq!(error.status_code(), 409);
    let bob = register(&mut db, account_params("bob", "other", "112")).unwrap();
    assert_eq!(bob.id, 2);
    let stored = UserService::find_by_phone_number(&db, "111".to_string()).unwrap();
    assert_eq!(stored.username, "ann");
}

#[test]
fn a_login_fails_on_a_hash_that_cannot_be_read() {
    let mut db = Database::new();
    UserService::create(&mut db, account_params("ann", "not a hash", "111")).unwrap();
    let error = login_at(&db, attempt("111", "not a hash"), "secret", 0).unwrap_err();
    assert!(matches!(error, AppError::AnyhowError(_)));
    assert_eq!(error.status_code(), 500);
}

#[test]
fn a_login_accepts_a_hash_made_elsewhere() {
    let mut db = Database::new();
    let hash = "$2b$04$EGdrhbKUv8Oc9vGiXX0HQOxSg445d458Muh7DAHskb6QbtCvdxcie";
    UserService::create(&mut db, account_params("ann", hash, "111")).unwrap();
    let response =
        login_at(&db, attempt("111", "correctbatteryhorsestapler"), "secret", 0).unwrap();
    assert_eq!(response.user.username, "ann");
    let error = login_at(&db, attempt("111", "wrong"), "secret", 0).unwrap_err();
    assert!(matches!(error, AppError::InvalidCredentials));
}

#[test]
fn the_comparison_decides_the_login() {
    assert!(check_password(Some(true)).is_ok());
    assert!(matches!(check_password(Some(false)), Err(AppError::InvalidCredentials)));
    assert!(matches!(check_password(None), Err(AppError::AnyhowError(_))));
}

#[test]
fn registering_without_a_hash_stores_nothing() {
    let mut db = Database::new();
    let error = register_with_hash(&mut db, account_params("ann", "pw", "111"), None).unwrap_err();
    assert!(matches!(error, AppError::AnyhowError(_)));
    assert_eq!(
        UserService::find_by_phone_number(&db, "111".to_string()),
        Err(StoreError::NotFound)
    );
}

#[test]
fn registering_with_a_hash_stores_the_hash() {
    let mut db = Database::new();
    db.advance_clock(77);
    let info =
        register_with_hash(&mut db, account_params("ann", "pw", "111"), Some("HASH".to_string()))
            .unwrap();
    assert_eq!((info.id, info.create_at), (1, 77));
    let stored = UserService::find_by_phone_number(&db, "111".to_string()).unwrap();
    assert_eq!(stored.password, "HASH");
    assert_eq!(stored.info(), info);
}

#[test]
fn leaving_deletes_the_user_and_what_it_owns() {
    let mut db = Database::new();
    let ann =
        register_with_hash(&mut db, account_params("ann", "pw", "111"), Some("h".to_string()))
            .unwrap();
    let bob =
        register_with_hash(&mut db, account_params("bob", "pw", "222"), Some("h".to_string()))
            .unwrap();
    let boss = BossService::create(
        &mut db,
        ann.id,
        CreateBossParams {
            name: "Shop".to_string(),
            phone_number: "1".to_string(),
            description: None,
            address: None,
        },
    )
    .unwrap();
    let gone = deregister(&mut db, ann.id).unwrap();
    assert_eq!(gone, ann);
    assert_eq!(BossService::find_by_id(&db, ann.id, boss.id), Err(StoreError::NotFound));
    assert!(matches!(deregister(&mut db, ann.id), Err(AppError::NotFound)));
    assert_eq!(UserService::find_by_phone_number(&db, "222".to_string()).unwrap().id, bob.id);
}

#[test]
fn a_user_is_granted_a_token_for_the_right_password() {
    let stored = with_hashed_password(account_params("ann", "pw", "111")).unwrap();
    assert_eq!(stored.username, "ann");
    assert_eq!(stored.phone_number, "111");
    assert_ne!(stored.password, "pw");
    let user = User {
        id: 5,
        username: stored.username,
        password: stored.password,
        phone_number: stored.phone_number,
        create_at: 9,
    };
    let response = grant(&user, "pw", "secret", 100).unwrap();
    assert_eq!(response.user, user.info());
    assert_eq!(
        Claims::decode_at(&response.token, "secret", 100),
        Ok(Claims { user_id: 5, exp: 100 + TOKEN_LIFETIME })
    );
    assert!(matches!(grant(&user, "PW", "secret", 100), Err(AppError::InvalidCredentials)));
    let response = grant_now(&user, "pw", "secret").unwrap();
    assert_eq!(Claims::decode(&response.token, "secret").unwrap().user_id, 5);
    assert!(matches!(grant_now(&user, "", "secret"), Err(AppError::InvalidCredentials)));
}

#[test]
fn the_hash_takes_the_place_of_the_password() {
    let stored = with_hash(account_params("ann", "pw", "111"), Some("HASH".to_string())).unwrap();
    assert_eq!(
        (stored.username.as_str(), stored.password.as_str(), stored.phone_number.as_str()),
        ("ann", "HASH", "111")
    );
    match with_hash(account_params("ann", "pw", "111"), None) {
        Err(AppError::AnyhowError(e)) => assert_eq!(e.0, "the password cannot be hashed"),
        other => panic!("unexpected {other:?}"),
    }
    match check_password(None) {
        Err(AppError::AnyhowError(e)) => {
            assert_eq!(e.0, "the stored password hash cannot be read")
        }
        other => panic!("unexpected {other:?}"),
    }
}

#[test]
fn two_hashes_of_one_password_differ_and_both_match() {
    let first = with_hashed_password(account_params("ann", "pw", "111")).unwrap().password;
    let second = with_hashed_password(account_params("ann", "pw", "111")).unwrap().password;
    assert_ne!(first, second);
    for hash in [first, second] {
        let user = User {
            id: 1,
            username: "ann".to_string(),
            password: hash,
            phone_number: "111".to_string(),
            create_at: 0,
        };
        assert!(grant(&user, "pw", "secret", 0).is_ok());
    }
}

#[test]
fn a_login_without_a_token_fails_with_token_creation() {
    let user = User {
        id: 1,
        username: "ann".to_string(),
        password: "hash".to_string(),
        phone_number: "111".to_string(),
        create_at: 3,
    };
    let error = welcome(&user, Err(AuthError::TokenCreation)).unwrap_err();
    assert!(matches!(error, AppError::AuthError(AuthError::TokenCreation)));
    assert_eq!(error.status_code(), 500);
    let response = welcome(&user, Ok("token".to_string())).unwrap();
    assert_eq!(response.token, "token");
    assert_eq!(response.user, user.info());
    assert_eq!(response.user.create_at, 3);
}
