use vstd::prelude::*;

use crate::errors::SqliteError;

verus! {

/// Errors of the account endpoints (sign-up and user lookup).
#[derive(Debug)]
pub enum ServiceError {
    ServiceError(String),
    UserAlreadyExist,
    SqliteError(SqliteError),
    LoginError,
    JwtError,
    UnknownServiceError,
}

/// The text shown to a user for each account error.
pub open spec fn account_error_text(e: ServiceError) -> Seq<char> {
    match e {
        ServiceError::ServiceError(_) => "Service layer error"@,
        ServiceError::UserAlreadyExist => "User already exists"@,
        ServiceError::SqliteError(_) => "Sqlite internal error"@,
        ServiceError::LoginError => "Login error"@,
        ServiceError::JwtError => "Jwt internal error"@,
        ServiceError::UnknownServiceError => "Unknown service layer error"@,
    }
}

impl ServiceError {
    /// Human-readable message for this error.
    pub fn error_message(&self) -> (r: String)
        ensures
            r@ == account_error_text(*self),
    {
        match self {
            ServiceError::ServiceError(_) => "Service layer error".to_string(),
            ServiceError::UserAlreadyExist => "User already exists".to_string(),
            ServiceError::SqliteError(_) => "Sqlite internal error".to_string(),
            ServiceError::LoginError => "Login error".to_string(),
            ServiceError::JwtError => "Jwt internal error".to_string(),
            ServiceError::UnknownServiceError => "Unknown service layer error".to_string(),
        }
    }

    /// HTTP status code for this error: 422 for an existing user, 500 otherwise.
    pub fn status_code(&self) -> (r: u16)
        ensures
            r == (if *self is UserAlreadyExist { 422u16 } else { 500u16 }),
    {
        match self {
            ServiceError::UserAlreadyExist => 422,
            _ => 500,
        }
    }
}

} // verus!
