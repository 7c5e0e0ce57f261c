use vstd::prelude::*;
use crate::error::AppError;

verus! {

/// The PHC string that argon2, with its default parameters, makes of
/// `password` under the B64 salt `salt`.
pub uninterp spec fn argon2_phc(password: Seq<char>, salt: Seq<char>) -> Seq<char>;

/// `phc` parses as a PHC password-hash string.
pub uninterp spec fn phc_well_formed(phc: Seq<char>) -> bool;

/// argon2 accepts `password` against the parsed PHC string `phc`.
pub uninterp spec fn argon2_accepts(password: Seq<char>, phc: Seq<char>) -> bool;

/// `SaltString::from_b64` accepts `salt`, and it decodes to at least the
/// eight bytes argon2 asks of a salt.
pub uninterp spec fn argon2_salt_ok(salt: Seq<char>) -> bool;

/// The longest password, in characters, whose UTF-8 bytes argon2 accepts
/// whatever they are: four bytes a character within `u32::MAX` bytes.
pub const MAX_PASSWORD_CHARS: usize = 0x3fff_ffff;

/// validator's verdict on `s` as an e-mail address.
pub uninterp spec fn email_valid(s: Seq<char>) -> bool;

/// Relies on password_hash::SaltString::generate with the operating system's
/// random source: sixteen random bytes in B64, which argon2 accepts.
#[verifier::external_body]
fn fresh_salt() -> (r: String)
    ensures
        argon2_salt_ok(r@),
{
    let salt = password_hash::SaltString::generate(&mut password_hash::rand_core::OsRng);
    salt.as_str().to_string()
}

/// Relies on argon2's PasswordHasher::hash_password, with default parameters,
/// after password_hash::SaltString::from_b64 reads the salt. It fails only on
/// a salt that is refused or too short, or a password over `u32::MAX` bytes.
/// The PHC string it gives parses, and argon2's PasswordVerifier, which
/// hashes again with the salt and parameters it holds, accepts the password.
#[verifier::external_body]
fn argon2_hash(password: &str, salt: &str) -> (r: Option<String>)
    ensures
        argon2_salt_ok(salt@) && password@.len() <= MAX_PASSWORD_CHARS ==> r is Some,
        r matches Some(h) ==> h@ == argon2_phc(password@, salt@) && phc_well_formed(h@)
            && argon2_accepts(password@, h@),
{
    let salt = password_hash::SaltString::from_b64(salt).ok()?;
    let hasher = argon2::Argon2::default();
    let hash = password_hash::PasswordHasher::hash_password(&hasher, password.as_bytes(), &salt).ok()?;
    Some(hash.to_string())
}

/// Relies on password_hash::PasswordHash::new, which parses the stored PHC
/// string, and argon2's PasswordVerifier::verify_password on the result.
#[verifier::external_body]
fn argon2_check(password: &str, phc: &str) -> (r: Option<bool>)
    ensures
        r is Some <==> phc_well_formed(phc@),
        r matches Some(b) ==> b == argon2_accepts(password@, phc@),
{
    let parsed = password_hash::PasswordHash::new(phc).ok()?;
    let verifier = argon2::Argon2::default();
    Some(password_hash::PasswordVerifier::verify_password(&verifier, password.as_bytes(), &parsed).is_ok())
}

/// Relies on validator's ValidateEmail::validate_email for `&str`.
#[verifier::external_body]
fn email_is_valid(s: &str) -> (r: bool)
    ensures
        r == email_valid(s@),
{
    validator::ValidateEmail::validate_email(&s)
}

/// The PHC string `h` is argon2's hash of `password` under some salt, and
/// argon2 accepts the password against it.
pub open spec fn hash_of(h: Seq<char>, password: Seq<char>) -> bool {
    &&& exists|salt: Seq<char>| h == argon2_phc(password, salt)
    &&& phc_well_formed(h)
    &&& argon2_accepts(password, h)
}

/// Salts and hashes `password` with argon2 under a fresh random salt.
pub fn hash_password(password: &str) -> (r: Result<String, AppError>)
    ensures
        r matches Ok(h) ==> hash_of(h@, password@),
        password@.len() <= MAX_PASSWORD_CHARS ==> r is Ok,
        r is Err ==> r == Err::<String, AppError>(AppError::InternalServerError),
{
    let salt = fresh_salt();
    match argon2_hash(password, salt.as_str()) {
        Some(h) => Ok(h),
        None => Err(AppError::InternalServerError),
    }
}

/// Checks `password` against a stored PHC string. A stored string that does
/// not parse is a store failure.
pub fn verify_password(password: &str, phc: &str) -> (r: Result<bool, AppError>)
    ensures
        phc_well_formed(phc@) ==> r == Ok::<bool, AppError>(argon2_accepts(password@, phc@)),
        !phc_well_formed(phc@) ==> r == Err::<bool, AppError>(AppError::InternalServerError),
{
    match argon2_check(password, phc) {
        Some(b) => Ok(b),
        None => Err(AppError::InternalServerError),
    }
}

pub const MIN_USERNAME_CHARS: usize = 3;

pub const MIN_PASSWORD_CHARS: usize = 6;

/// The fields of a registration meet the rules on their form.
pub open spec fn registration_valid(username: Seq<char>, email: Seq<char>, password: Seq<char>) -> bool {
    &&& username.len() >= MIN_USERNAME_CHARS
    &&& email_valid(email)
    &&& password.len() >= MIN_PASSWORD_CHARS
}

/// Checks the form of a registration: a username of at least three
/// characters, a valid e-mail address and a password of at least six.
pub fn validate_registration(username: &str, email: &str, password: &str) -> (r: Result<(), AppError>)
    ensures
        r is Ok <==> registration_valid(username@, email@, password@),
        r is Err ==> r->Err_0 is BadRequest,
{
    check_registration_form(username, email_is_valid(email), password)
}

/// Checks the form of a registration, given validator's verdict on its
/// e-mail address.
pub fn check_registration_form(username: &str, email_ok: bool, password: &str) -> (r: Result<(), AppError>)
    ensures
        r is Ok <==> username@.len() >= MIN_USERNAME_CHARS && email_ok && password@.len() >= MIN_PASSWORD_CHARS,
        r is Err ==> r->Err_0 is BadRequest,
{
    if username.unicode_len() < MIN_USERNAME_CHARS {
        return Err(AppError::bad_request("Username must be at least 3 characters"));
    }
    if !email_ok {
        return Err(AppError::bad_request("Invalid email format"));
    }
    if password.unicode_len() < MIN_PASSWORD_CHARS {
        return Err(AppError::bad_request("Password must be at least 6 characters"));
    }
    Ok(())
}

} // verus!
