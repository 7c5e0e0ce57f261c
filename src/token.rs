use vstd::prelude::*;
use crate::error::AppError;

verus! {

/// Seconds in the lifetime of a session token: seven days.
pub const TOKEN_LIFETIME_SECS: u64 = 604800;

/// The compact JWT that jsonwebtoken signs, with HS256 under `key`, for the
/// claims `sub` and `exp`.
pub uninterp spec fn jwt_signed(sub: u128, exp: u64, key: Seq<u8>) -> Seq<char>;

/// The claims `(sub, exp)` that jsonwebtoken reads back from `token` once its
/// HS256 signature under `key` checks out; `None` when it does not, or when
/// the payload holds no such pair.
pub uninterp spec fn jwt_claims(token: Seq<char>, key: Seq<u8>) -> Option<(u128, u128)>;

/// Relies on jsonwebtoken::encode: signs `{"exp": exp, "sub": sub}` with the
/// default HS256 header. HMAC signing of a map of integers under a secret
/// key does not fail, and the same key and algorithm read the claims back.
#[verifier::external_body]
fn sign_claims(sub: u128, exp: u64, key: &[u8]) -> (r: Option<String>)
    ensures
        r is Some,
        r matches Some(t) ==> t@ == jwt_signed(sub, exp, key@) && jwt_claims(t@, key@) == Some(
            (sub, exp as u128),
        ),
{
    let claims = std::collections::BTreeMap::from([("sub", sub), ("exp", exp as u128)]);
    let key = jsonwebtoken::EncodingKey::from_secret(key);
    jsonwebtoken::encode(&jsonwebtoken::Header::default(), &claims, &key).ok()
}

/// Relies on jsonwebtoken::decode: checks the HS256 signature of `token` under
/// `key` and reads its `sub` and `exp` claims. Expiry is judged by the caller.
#[verifier::external_body]
fn read_claims(token: &str, key: &[u8]) -> (r: Option<(u128, u128)>)
    ensures
        r == jwt_claims(token@, key@),
{
    let mut validation = jsonwebtoken::Validation::new(jsonwebtoken::Algorithm::HS256);
    validation.validate_exp = false;
    validation.required_spec_claims.clear();
    let key = jsonwebtoken::DecodingKey::from_secret(key);
    let data = jsonwebtoken::decode::<std::collections::BTreeMap<String, u128>>(token, &key, &validation).ok()?;
    Some((*data.claims.get("sub")?, *data.claims.get("exp")?))
}

/// `token` is the session token issued for `sub` at time `now` under `key`:
/// it embeds `sub` and expires seven days after `now`.
pub open spec fn issued(token: Seq<char>, sub: u128, now: u64, key: Seq<u8>) -> bool {
    &&& now + TOKEN_LIFETIME_SECS <= u64::MAX
    &&& token == jwt_signed(sub, (now + TOKEN_LIFETIME_SECS) as u64, key)
    &&& jwt_claims(token, key) == Some((sub, (now + TOKEN_LIFETIME_SECS) as u128))
}

/// Signs a session token for `user_id` that expires seven days after `now`.
pub fn issue_token(user_id: u128, now: u64, key: &[u8]) -> (r: Result<String, AppError>)
    ensures
        r matches Ok(t) ==> issued(t@, user_id, now, key@),
        r is Err ==> r == Err::<String, AppError>(AppError::InternalServerError),
        now + TOKEN_LIFETIME_SECS > u64::MAX ==> r is Err,
        now + TOKEN_LIFETIME_SECS <= u64::MAX ==> r is Ok,
{
    let exp = match now.checked_add(TOKEN_LIFETIME_SECS) {
        Some(e) => e,
        None => return Err(AppError::InternalServerError),
    };
    match sign_claims(user_id, exp, key) {
        Some(t) => Ok(t),
        None => Err(AppError::InternalServerError),
    }
}

/// The identity that an `Authorization` header value proves at time `now`.
pub open spec fn resolve_spec(header: Option<Seq<char>>, key: Seq<u8>, now: int) -> Result<u128, AppError> {
    match header {
        None => Err(AppError::Unauthorized),
        Some(h) => {
            if h.len() >= 7 && h.subrange(0, 7) == "Bearer "@ {
                claims_verdict(jwt_claims(h.subrange(7, h.len() as int), key), now)
            } else {
                Err(AppError::Unauthorized)
            }
        },
    }
}

pub open spec fn header_view(header: Option<&str>) -> Option<Seq<char>> {
    match header {
        Some(h) => Some(h@),
        None => None,
    }
}

/// Resolves the caller's identity from the value of an `Authorization`
/// header of the form `Bearer <token>`. No store is consulted.
pub fn resolve_identity(header: Option<&str>, key: &[u8], now: u64) -> (r: Result<u128, AppError>)
    ensures
        r == resolve_spec(header_view(header), key@, now as int),
{
    let h = match header {
        Some(h) => h,
        None => return Err(AppError::Unauthorized),
    };
    let n = h.unicode_len();
    if n < 7 {
        return Err(AppError::Unauthorized);
    }
    let scheme = String::from_str(h.substring_char(0, 7));
    let bearer = String::from_str("Bearer ");
    if !(scheme == bearer) {
        return Err(AppError::Unauthorized);
    }
    let token = h.substring_char(7, n);
    identity_of_claims(read_claims(token, key), now)
}

/// The verdict on the claims read back from a token: the subject, unless
/// the signature did not check out or the token expired before `now`.
pub open spec fn claims_verdict(claims: Option<(u128, u128)>, now: int) -> Result<u128, AppError> {
    match claims {
        Some((sub, exp)) => if now <= exp {
            Ok(sub)
        } else {
            Err(AppError::Unauthorized)
        },
        None => Err(AppError::Unauthorized),
    }
}

/// The identity that verified claims prove at time `now`.
pub fn identity_of_claims(claims: Option<(u128, u128)>, now: u64) -> (r: Result<u128, AppError>)
    ensures
        r == claims_verdict(claims, now as int),
{
    match claims {
        Some((sub, exp)) => {
            if (now as u128) <= exp {
                Ok(sub)
            } else {
                Err(AppError::Unauthorized)
            }
        },
        None => Err(AppError::Unauthorized),
    }
}

/// A token issued at time `t` proves its subject one second later, and no
/// longer one second after its seven days have run out.
pub proof fn lemma_token_lifetime(token: Seq<char>, sub: u128, t: u64, key: Seq<u8>)
    requires
        issued(token, sub, t, key),
    ensures
        resolve_spec(Some("Bearer "@ + token), key, t + 1) == Ok::<u128, AppError>(sub),
        resolve_spec(Some("Bearer "@ + token), key, t + TOKEN_LIFETIME_SECS + 1)
            == Err::<u128, AppError>(AppError::Unauthorized),
{
    reveal_strlit("Bearer ");
    let h = "Bearer "@ + token;
    assert(h.subrange(0, 7) =~= "Bearer "@);
    assert(h.subrange(7, h.len() as int) =~= token);
}

} // verus!
