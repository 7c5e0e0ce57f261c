use microfund::credentials::{check_registration_form, hash_password, validate_registration, verify_password};
use microfund::error::AppError;
use microfund::platform::Platform;
use microfund::token::{identity_of_claims, issue_token, resolve_identity, TOKEN_LIFETIME_SECS};

const KEY: &[u8] = b"test-signing-key";
const T0: u64 = 1_700_000_000;

fn platform() -> Platform {
    Platform::new(KEY.to_vec()).unwrap()
}

fn bearer(token: &str) -> String {
    format!("Bearer {}", token)
}

#[test]
fn test_token_logic() {
    assert!(true);
    let token = issue_token(42, T0, KEY).unwrap();
    let header = bearer(&token);
    assert_eq!(resolve_identity(Some(&header), KEY, T0).unwrap(), 42);
}

#[test]
fn test_password_hashing() {
    let password = "password123";
    let hash = hash_password(password).unwrap();
    assert_ne!(hash, password);
    assert!(hash.starts_with("$argon2"));
    assert!(verify_password(password, &hash).unwrap());
}

#[test]
fn wrong_password_does_not_verify() {
    let hash = hash_password("password123").unwrap();
    assert!(!verify_password("password124", &hash).unwrap());
}

#[test]
fn malformed_stored_hash_is_a_store_failure() {
    assert!(matches!(verify_password("password123", "not a phc string"), Err(AppError::InternalServerError)));
}

#[test]
fn token_valid_one_second_after_issue_and_expired_after_seven_days() {
    let token = issue_token(7, T0, KEY).unwrap();
    let header = bearer(&token);
    assert_eq!(resolve_identity(Some(&header), KEY, T0 + 1).unwrap(), 7);
    assert_eq!(resolve_identity(Some(&header), KEY, T0 + TOKEN_LIFETIME_SECS).unwrap(), 7);
    assert!(matches!(
        resolve_identity(Some(&header), KEY, T0 + TOKEN_LIFETIME_SECS + 1),
        Err(AppError::Unauthorized)
    ));
}

#[test]
fn token_lifetime_is_seven_days() {
    assert_eq!(TOKEN_LIFETIME_SECS, 7 * 24 * 60 * 60);
}

#[test]
fn token_signed_with_another_key_is_refused() {
    let token = issue_token(7, T0, b"another-key").unwrap();
    let header = bearer(&token);
    assert!(matches!(resolve_identity(Some(&header), KEY, T0 + 1), Err(AppError::Unauthorized)));
}

#[test]
fn missing_or_malformed_header_is_refused() {
    let token = issue_token(7, T0, KEY).unwrap();
    assert!(matches!(resolve_identity(None, KEY, T0), Err(AppError::Unauthorized)));
    assert!(matches!(resolve_identity(Some(&token), KEY, T0), Err(AppError::Unauthorized)));
    let basic = format!("Basic {}", token);
    assert!(matches!(resolve_identity(Some(&basic), KEY, T0), Err(AppError::Unauthorized)));
    assert!(matches!(resolve_identity(Some("Bearer not.a.token"), KEY, T0), Err(AppError::Unauthorized)));
    assert!(matches!(resolve_identity(Some("Bear"), KEY, T0), Err(AppError::Unauthorized)));
}

#[test]
fn token_expiry_overflow_is_an_internal_error() {
    assert!(matches!(issue_token(1, u64::MAX - 10, KEY), Err(AppError::InternalServerError)));
}

#[test]
fn registration_form_rules() {
    assert!(validate_registration("alice", "alice@example.com", "secret1").is_ok());
    assert!(matches!(validate_registration("al", "alice@example.com", "secret1"), Err(AppError::BadRequest(_))));
    assert!(matches!(validate_registration("alice", "not-an-email", "secret1"), Err(AppError::BadRequest(_))));
    assert!(matches!(validate_registration("alice", "alice@example.com", "short"), Err(AppError::BadRequest(_))));
}

#[test]
fn register_then_login() {
    let mut p = platform();
    let (token, id) = p.register("alice", "alice@example.com", "password123", T0).unwrap();
    assert_eq!(p.users.len(), 1);
    assert_eq!(p.users[0].id, id);
    assert_eq!(p.users[0].reputation_score, 100);
    assert_ne!(p.users[0].password_hash, "password123");
    assert_eq!(p.get_user_id_from_req(Some(&bearer(&token)), T0 + 1).unwrap(), id);
    let (token2, id2) = p.login("alice", "password123", T0 + 5).unwrap();
    assert_eq!(id2, id);
    assert_eq!(p.get_user_id_from_req(Some(&bearer(&token2)), T0 + 6).unwrap(), id);
}

#[test]
fn duplicate_username_or_email_conflicts() {
    let mut p = platform();
    let (_, id) = p.register("alice", "alice@example.com", "password123", T0).unwrap();
    let first_hash = p.users[0].password_hash.clone();
    assert!(matches!(p.register("alice", "other@example.com", "password456", T0), Err(AppError::Conflict(_))));
    assert!(matches!(p.register("alicia", "alice@example.com", "password456", T0), Err(AppError::Conflict(_))));
    assert_eq!(p.users.len(), 1);
    assert_eq!(p.users[0].id, id);
    assert_eq!(p.users[0].username, "alice");
    assert_eq!(p.users[0].email, "alice@example.com");
    assert_eq!(p.users[0].password_hash, first_hash);
    assert!(p.login("alice", "password123", T0).is_ok());
}

#[test]
fn malformed_registration_is_a_bad_request() {
    let mut p = platform();
    assert!(matches!(p.register("al", "al@example.com", "password123", T0), Err(AppError::BadRequest(_))));
    assert!(matches!(p.register("alice", "alice-at-example", "password123", T0), Err(AppError::BadRequest(_))));
    assert!(matches!(p.register("alice", "alice@example.com", "12345", T0), Err(AppError::BadRequest(_))));
    assert!(p.users.is_empty());
}

#[test]
fn wrong_password_or_unknown_user_is_unauthorized() {
    let mut p = platform();
    p.register("alice", "alice@example.com", "password123", T0).unwrap();
    assert!(matches!(p.login("alice", "wrong-password", T0), Err(AppError::Unauthorized)));
    assert!(matches!(p.login("bob", "password123", T0), Err(AppError::Unauthorized)));
}

#[test]
fn profile_of_registered_and_unknown_user() {
    let mut p = platform();
    let (_, id) = p.register("alice", "alice@example.com", "password123", T0).unwrap();
    let (name, mail, score) = p.get_profile(id).unwrap();
    assert_eq!(name, "alice");
    assert_eq!(mail, "alice@example.com");
    assert_eq!(score, 100);
    assert!(matches!(p.get_profile(id.wrapping_add(1)), Err(AppError::NotFound)));
}

#[test]
fn platform_needs_a_signing_key() {
    assert!(Platform::new(Vec::new()).is_none());
    assert!(Platform::new(KEY.to_vec()).is_some());
}

#[test]
fn claims_verdict_on_given_values() {
    assert_eq!(identity_of_claims(Some((9, 1_000)), 999).unwrap(), 9);
    assert_eq!(identity_of_claims(Some((9, 1_000)), 1_000).unwrap(), 9);
    assert!(matches!(identity_of_claims(Some((9, 1_000)), 1_001), Err(AppError::Unauthorized)));
    assert!(matches!(identity_of_claims(None, 0), Err(AppError::Unauthorized)));
}

#[test]
fn registration_form_on_given_email_verdict() {
    assert!(check_registration_form("bob", true, "123456").is_ok());
    assert!(matches!(check_registration_form("bob", false, "123456"), Err(AppError::BadRequest(_))));
    assert!(matches!(check_registration_form("bo", true, "123456"), Err(AppError::BadRequest(_))));
    assert!(matches!(check_registration_form("bob", true, "12345"), Err(AppError::BadRequest(_))));
}

#[test]
fn login_token_overflow_is_an_internal_error() {
    let mut p = platform();
    p.register("alice", "alice@example.com", "password123", T0).unwrap();
    assert!(matches!(p.login("alice", "password123", u64::MAX), Err(AppError::InternalServerError)));
    assert!(matches!(p.register("bobby", "bob@example.com", "password123", u64::MAX), Err(AppError::InternalServerError)));
    assert_eq!(p.users.len(), 1);
}

#[test]
fn insert_user_on_given_identity() {
    let mut p = platform();
    let hash = hash_password("password123").unwrap();
    let (token, id) = p.insert_user(11, "alice", "alice@example.com", hash.clone(), T0).unwrap();
    assert_eq!(id, 11);
    assert_eq!(p.get_user_id_from_req(Some(&bearer(&token)), T0 + 1).unwrap(), 11);
    assert!(matches!(
        p.insert_user(11, "bob", "bob@example.com", hash.clone(), T0),
        Err(AppError::InternalServerError)
    ));
    assert!(matches!(
        p.insert_user(12, "bob", "bob@example.com", hash, u64::MAX),
        Err(AppError::InternalServerError)
    ));
    assert_eq!(p.users.len(), 1);
}

#[test]
fn registered_password_logs_in_and_stored_hash_verifies() {
    let mut p = platform();
    let (_, id) = p.register("alice", "alice@example.com", "password123", T0).unwrap();
    assert!(verify_password("password123", &p.users[0].password_hash).unwrap());
    let (token, who) = p.login("alice", "password123", T0 + 10).unwrap();
    assert_eq!(who, id);
    assert_eq!(p.get_user_id_from_req(Some(&bearer(&token)), T0 + 11).unwrap(), id);
}

#[test]
fn token_issued_whenever_expiry_fits() {
    assert!(issue_token(1, u64::MAX - TOKEN_LIFETIME_SECS, KEY).is_ok());
    assert!(issue_token(1, u64::MAX - TOKEN_LIFETIME_SECS + 1, KEY).is_err());
}
