use payfree::auth::{authenticate, authorize, claims_for, parse_bearer, AuthenticatedUser,
    LoginRequest};
use payfree::errors::ApiError;
use payfree::ledger::Ledger;
use payfree::model::{SignupRequest, User};
use payfree::passwd::hash;

#[test]
fn test_hello_route() {
    assert_eq!(payfree::hello(), "Hi Raghav!");
}

#[test]
fn test_parse_bearer_token() {
    assert_eq!(parse_bearer("Bearer abc.def.ghi"), Some("abc.def.ghi"));
    assert_eq!(parse_bearer("Bearer "), Some(""));
    assert_eq!(parse_bearer("Basic abc"), None);
    assert_eq!(parse_bearer("Bearer"), None);
    assert_eq!(parse_bearer(""), None);
    assert_eq!(parse_bearer("bearer abc"), None);
}

#[test]
fn test_authorize_owner_only() {
    let caller = AuthenticatedUser { username: "alice".to_string() };
    assert!(authorize(&caller, "alice").is_ok());
    assert!(matches!(authorize(&caller, "bob"), Err(ApiError::Unauthorized)));
}

#[test]
fn test_claims_for() {
    let claims = claims_for("alice".to_string(), 1000, 3600);
    assert_eq!(claims.sub, "alice");
    assert_eq!(claims.exp, 4600);
}

#[test]
fn test_signup_and_login_flow() {
    let mut ledger = Ledger::new();
    let req = SignupRequest {
        userid: 11,
        name: "Test User".to_string(),
        username: "testuser_1".to_string(),
        phno: "1234567890".to_string(),
        address: "Test Address".to_string(),
        balance: 100,
        password: "testpassword".to_string(),
    };
    let password_hash = hash(&req.password).expect("hashing failed");
    let user = User::from_signup(req, password_hash);
    ledger.new_user(user).unwrap();

    let ok = authenticate(
        &ledger,
        &LoginRequest { username: "testuser_1".to_string(), password: "testpassword".to_string() },
    );
    assert!(ok.is_ok());
    assert_eq!(ok.unwrap().username, "testuser_1");

    let wrong = authenticate(
        &ledger,
        &LoginRequest { username: "testuser_1".to_string(), password: "nope".to_string() },
    );
    assert!(matches!(wrong, Err(ApiError::InvalidCredentials)));

    let unknown = authenticate(
        &ledger,
        &LoginRequest { username: "nobody".to_string(), password: "testpassword".to_string() },
    );
    assert!(matches!(unknown, Err(ApiError::UserNotFound)));
}

#[test]
fn test_error_status_codes() {
    assert_eq!(ApiError::InvalidCredentials.status_code(), 401);
    assert_eq!(ApiError::Unauthorized.status_code(), 401);
    assert_eq!(ApiError::UserNotFound.status_code(), 404);
    assert_eq!(ApiError::BalanceLow.status_code(), 400);
    assert_eq!(ApiError::InvalidAmount.status_code(), 400);
    assert_eq!(ApiError::InvalidTransfer.status_code(), 400);
    assert_eq!(ApiError::Validation.status_code(), 400);
    assert_eq!(ApiError::Conflict.status_code(), 409);
    assert_eq!(ApiError::StorageUnavailable.status_code(), 500);
    assert_eq!(ApiError::InternalServerError.status_code(), 500);
}

#[test]
fn test_error_messages() {
    assert_eq!(ApiError::BalanceLow.message(), "Balance too low for transaction");
    assert_eq!(ApiError::UserNotFound.message(), "User not found");
    assert_eq!(ApiError::InvalidCredentials.message(), "Invalid credentials");
    assert_eq!(ApiError::Unauthorized.message(), "Unauthorized");
}
