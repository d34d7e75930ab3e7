//! The error type shared by the library and the service around it.
use vstd::prelude::*;

verus! {

#[verifier::external_type_specification]
#[verifier::external_body]
pub struct ExSqlxError(sqlx::Error);

/// Everything a request can fail with.
#[derive(Debug)]
pub enum AppError {
    DatabaseError(sqlx::Error),
    InvalidCredentials,
    InvalidToken,
    TokenExpired,
    Unauthorized,
    ValidationError(String),
    UserAlreadyExists,
    UserNotFound,
    InternalServerError(String),
}

/// Message carried by the error that reports an arithmetic overflow.
pub open spec fn overflow_message() -> Seq<char> {
    "arithmetic overflow"@
}

impl AppError {
    /// The error for an arithmetic result that `rust_decimal` cannot represent.
    pub fn overflow() -> (r: AppError)
        ensures
            r matches AppError::InternalServerError(m) && m@ == overflow_message(),
    {
        AppError::InternalServerError(String::from_str("arithmetic overflow"))
    }
}

/// HTTP status of each error.
pub open spec fn status_of(e: &AppError) -> u16 {
    match e {
        AppError::DatabaseError(_) => 500,
        AppError::InvalidCredentials => 401,
        AppError::InvalidToken => 401,
        AppError::TokenExpired => 401,
        AppError::Unauthorized => 401,
        AppError::ValidationError(_) => 400,
        AppError::UserAlreadyExists => 409,
        AppError::UserNotFound => 404,
        AppError::InternalServerError(_) => 500,
    }
}

/// The short label a client sees for each error; internal details stay out.
pub open spec fn label_of(e: &AppError) -> Seq<char> {
    match e {
        AppError::DatabaseError(_) => "Internal server error"@,
        AppError::InvalidCredentials => "Invalid credentials"@,
        AppError::InvalidToken => "Invalid token"@,
        AppError::TokenExpired => "Token expired"@,
        AppError::Unauthorized => "Unauthorized"@,
        AppError::ValidationError(_) => "Validation error"@,
        AppError::UserAlreadyExists => "User already exists"@,
        AppError::UserNotFound => "User not found"@,
        AppError::InternalServerError(_) => "Internal server error"@,
    }
}

impl AppError {
    /// The error for a rejected token: expired, or invalid for any other reason.
    pub fn token_rejected(expired: bool) -> (r: AppError)
        ensures
            expired ==> r is TokenExpired,
            !expired ==> r is InvalidToken,
    {
        if expired {
            AppError::TokenExpired
        } else {
            AppError::InvalidToken
        }
    }

    /// The HTTP status code of the response to this error.
    pub fn status_code(&self) -> (r: u16)
        ensures
            r == status_of(self),
    {
        match self {
            AppError::DatabaseError(_) => 500,
            AppError::InvalidCredentials => 401,
            AppError::InvalidToken => 401,
            AppError::TokenExpired => 401,
            AppError::Unauthorized => 401,
            AppError::ValidationError(_) => 400,
            AppError::UserAlreadyExists => 409,
            AppError::UserNotFound => 404,
            AppError::InternalServerError(_) => 500,
        }
    }

    /// The label of the response body.
    pub fn error_label(&self) -> (r: &'static str)
        ensures
            r@ == label_of(self),
    {
        match self {
            AppError::DatabaseError(_) => "Internal server error",
            AppError::InvalidCredentials => "Invalid credentials",
            AppError::InvalidToken => "Invalid token",
            AppError::TokenExpired => "Token expired",
            AppError::Unauthorized => "Unauthorized",
            AppError::ValidationError(_) => "Validation error",
            AppError::UserAlreadyExists => "User already exists",
            AppError::UserNotFound => "User not found",
            AppError::InternalServerError(_) => "Internal server error",
        }
    }

    /// The details of the response body, where the client may see any.
    pub fn details(&self) -> (r: Option<String>)
        ensures
            match self {
                AppError::InvalidCredentials => r matches Some(d) && d@
                    == "Email or password is incorrect"@,
                AppError::ValidationError(m) => r matches Some(d) && d@ == m@,
                AppError::UserAlreadyExists => r matches Some(d) && d@
                    == "A user with this email already exists"@,
                _ => r is None,
            },
    {
        match self {
            AppError::InvalidCredentials => Some(String::from_str("Email or password is incorrect")),
            AppError::ValidationError(m) => Some(m.clone()),
            AppError::UserAlreadyExists => Some(
                String::from_str("A user with this email already exists"),
            ),
            _ => None,
        }
    }
}

} // verus!
