//! Account requests, token claims and the checks made on them.
use crate::error::AppError;
use crate::text::{contains_char, is_blank, same_text, trimmed};
use vstd::prelude::*;
use vstd::utf8::encode_utf8;

verus! {

/// Seconds in an hour.
pub const SECONDS_PER_HOUR: i64 = 3600;

/// The claims of an access token. Instants are seconds since the Unix epoch.
#[derive(Debug)]
pub struct Claims {
    /// The user's identifier.
    pub sub: String,
    pub email: String,
    /// Expiry.
    pub exp: i64,
    /// Issue time.
    pub iat: i64,
}

impl Claims {
    /// Claims issued at `issued_at` that expire `expiration_hours` hours later;
    /// `None` where the expiry falls outside the range of `i64`.
    pub fn new(sub: String, email: String, issued_at: i64, expiration_hours: i64) -> (r: Option<Claims>)
        ensures
            r is None <==> !(i64::MIN <= issued_at + expiration_hours * 3600 <= i64::MAX),
            r matches Some(c) ==> c.sub == sub && c.email == email && c.iat == issued_at && c.exp
                == issued_at + expiration_hours * 3600,
    {
        let span = expiration_hours as i128 * SECONDS_PER_HOUR as i128;
        assert(-0x8000_0000_0000_0000 * 3600 <= span <= 0x7fff_ffff_ffff_ffff * 3600) by (nonlinear_arith)
            requires
                span == expiration_hours * 3600,
                i64::MIN <= expiration_hours <= i64::MAX,
        ;
        let exp = issued_at as i128 + span;
        if exp < i64::MIN as i128 || exp > i64::MAX as i128 {
            None
        } else {
            Some(Claims { sub, email, exp: exp as i64, iat: issued_at })
        }
    }
}

/// Relies on `chrono::Utc::now` and `DateTime::timestamp`: the current time
/// in seconds since the Unix epoch. Nothing is claimed about its value.
#[verifier::external_body]
fn now_timestamp() -> (r: i64) {
    chrono::Utc::now().timestamp()
}

/// Claims issued now that expire `expiration_hours` hours later; `None`
/// where that expiry falls outside the range of `i64`.
pub fn issue_claims(sub: String, email: String, expiration_hours: i64) -> (r: Option<Claims>)
    ensures
        r matches Some(c) ==> c.sub == sub && c.email == email && c.exp == c.iat
            + expiration_hours * 3600,
{
    Claims::new(sub, email, now_timestamp(), expiration_hours)
}

/// A request to open an account.
#[derive(Debug)]
pub struct CreateUserRequest {
    pub name: String,
    pub email: String,
    pub password: String,
}

/// A request to sign in.
#[derive(Debug)]
pub struct LoginRequest {
    pub email: String,
    pub password: String,
}

/// Length in bytes of `s`, as `str::len` reports it.
pub open spec fn byte_len(s: Seq<char>) -> usize {
    encode_utf8(s).len() as usize
}

/// An address is plausible when it is not blank and holds an '@'.
pub open spec fn plausible_email(s: Seq<char>) -> bool {
    trimmed(s).len() > 0 && s.contains('@')
}

pub open spec fn validation_error(r: Result<(), AppError>, msg: Seq<char>) -> bool {
    r matches Err(AppError::ValidationError(m)) && m@ == msg
}

/// Checks a sign-up request: a name that is not blank, a plausible email
/// address and a password of at least 8 bytes, reported in that order.
pub fn validate_registration(req: &CreateUserRequest) -> (r: Result<(), AppError>)
    ensures
        trimmed(req.name@).len() == 0 ==> validation_error(r, "Name cannot be empty"@),
        trimmed(req.name@).len() > 0 && !plausible_email(req.email@) ==> validation_error(
            r,
            "Invalid email address"@,
        ),
        trimmed(req.name@).len() > 0 && plausible_email(req.email@) && byte_len(req.password@) < 8
            ==> validation_error(r, "Password must be at least 8 characters"@),
        r is Ok <==> trimmed(req.name@).len() > 0 && plausible_email(req.email@) && byte_len(
            req.password@,
        ) >= 8,
{
    if is_blank(req.name.as_str()) {
        return Err(AppError::ValidationError(String::from_str("Name cannot be empty")));
    }
    if is_blank(req.email.as_str()) || !contains_char(req.email.as_str(), '@') {
        return Err(AppError::ValidationError(String::from_str("Invalid email address")));
    }
    if req.password.as_str().len() < 8 {
        return Err(
            AppError::ValidationError(String::from_str("Password must be at least 8 characters")),
        );
    }
    Ok(())
}

/// Checks a sign-in request: an email that is not blank, then a password that
/// is not empty.
pub fn validate_login(req: &LoginRequest) -> (r: Result<(), AppError>)
    ensures
        trimmed(req.email@).len() == 0 ==> validation_error(r, "Email cannot be empty"@),
        trimmed(req.email@).len() > 0 && req.password@.len() == 0 ==> validation_error(
            r,
            "Password cannot be empty"@,
        ),
        r is Ok <==> trimmed(req.email@).len() > 0 && req.password@.len() > 0,
{
    if is_blank(req.email.as_str()) {
        return Err(AppError::ValidationError(String::from_str("Email cannot be empty")));
    }
    if req.password.as_str().is_empty() {
        return Err(AppError::ValidationError(String::from_str("Password cannot be empty")));
    }
    Ok(())
}

/// The token of an `Authorization: Bearer <token>` header: a missing header
/// is unauthorised, one without the scheme an invalid token.
pub fn bearer_token(header: Option<&str>) -> (r: Result<&str, AppError>)
    ensures
        header is None ==> r matches Err(AppError::Unauthorized),
        header matches Some(h) ==> if h@.len() >= 7 && h@.take(7) == "Bearer "@ {
            r matches Ok(t) && t@ == h@.skip(7)
        } else {
            r matches Err(AppError::InvalidToken)
        },
{
    let h = match header {
        Some(h) => h,
        None => {
            return Err(AppError::Unauthorized);
        },
    };
    let n = h.unicode_len();
    if n < 7 {
        return Err(AppError::InvalidToken);
    }
    let scheme = h.substring_char(0, 7);
    if !same_text(scheme, "Bearer ") {
        return Err(AppError::InvalidToken);
    }
    Ok(h.substring_char(7, n))
}

/// The 128-bit value of the UUID that `s` writes, as `uuid` parses it.
pub uninterp spec fn uuid_of(s: Seq<char>) -> Option<u128>;

/// Relies on `uuid::Uuid::parse_str` and `Uuid::as_u128`: the value of the
/// UUID written in `s`, `None` where `s` writes none.
#[verifier::external_body]
fn parse_uuid(s: &str) -> (r: Option<u128>)
    ensures
        r == uuid_of(s@),
{
    match uuid::Uuid::parse_str(s) {
        Ok(u) => Some(u.as_u128()),
        Err(_) => None,
    }
}

/// The user a token speaks for; a subject that is not a UUID makes the
/// token invalid.
pub fn subject_user_id(claims: &Claims) -> (r: Result<u128, AppError>)
    ensures
        match uuid_of(claims.sub@) {
            Some(u) => r matches Ok(v) && v == u,
            None => r matches Err(AppError::InvalidToken),
        },
{
    match parse_uuid(claims.sub.as_str()) {
        Some(u) => Ok(u),
        None => Err(AppError::InvalidToken),
    }
}

} // verus!
