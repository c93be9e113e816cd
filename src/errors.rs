use vstd::prelude::*;

verus! {

/// Failure of the row store, as seen by the services.
#[derive(Debug, Clone, Copy, PartialEq, Eq, Structural)]
pub enum SqliteError {
    /// The query ran and no row matched.
    NotFound,
    /// The query could not run, or a write broke a constraint other than the
    /// ones the services recover from.
    UnknownSqliteProblem,
    /// A row came back in a shape the service could not read.
    SqliteFailureNoText,
}

/// Errors surfaced by the service layer to its callers.
#[derive(Debug)]
pub enum ServiceError {
    Internal,
    UserAlreadyExist,
    /// No candidate is eligible for the requester right now.
    NoPotentialMatchFound,
    Sqlite(SqliteError),
    /// The caller may not act on that pairing, identity or message.
    ForbiddenQuery,
    /// A value was refused: (value, reason).
    ValueNotAccepted(String, String),
    /// The caller already swiped that identity.
    Conflict,
    /// Beginning or committing a transaction failed.
    Transaction,
    UnknownServiceProblem,
}

/// Machine-readable code carried by an error response body.
#[derive(Debug, Clone, Copy, PartialEq, Eq, Structural)]
pub enum ErrorCode {
    NoError,
    UnspecifiedError,
}

/// Body of an error response.
#[derive(Debug)]
pub struct ApiResponseError {
    pub error_message: String,
    pub error_code: ErrorCode,
}

/// Errors of the authentication endpoints.
#[derive(Debug, Clone, Copy, PartialEq, Eq, Structural)]
pub enum AuthError {
    WrongCredentials,
    TokenCreation,
    InvalidToken,
}

/// The text shown to a user for each service error.
pub open spec fn service_error_text(e: ServiceError) -> Seq<char> {
    match e {
        ServiceError::Internal => "Internal error"@,
        ServiceError::UserAlreadyExist => "User already exists"@,
        ServiceError::NoPotentialMatchFound => "No potential match found"@,
        ServiceError::Sqlite(_) => "Sqlite internal error"@,
        ServiceError::ForbiddenQuery => "Query forbidden error"@,
        ServiceError::ValueNotAccepted(value, reason) => "SQL provided value not accepted, value = "@
            + value@ + " reason : "@ + reason@,
        ServiceError::Conflict => "Already swiped"@,
        ServiceError::Transaction => "Transaction error"@,
        ServiceError::UnknownServiceProblem => "Unknown service layer error"@,
    }
}

/// The HTTP status that each service error maps to.
pub open spec fn service_error_status(e: ServiceError) -> u16 {
    match e {
        ServiceError::Internal => 500,
        ServiceError::UserAlreadyExist => 422,
        ServiceError::NoPotentialMatchFound => 404,
        ServiceError::Sqlite(SqliteError::NotFound) => 404,
        ServiceError::Sqlite(_) => 500,
        ServiceError::ForbiddenQuery => 403,
        ServiceError::ValueNotAccepted(_, _) => 403,
        ServiceError::Conflict => 409,
        ServiceError::Transaction => 500,
        ServiceError::UnknownServiceProblem => 500,
    }
}

impl ServiceError {
    /// Human-readable message for this error.
    pub fn error_message(&self) -> (r: String)
        ensures
            r@ == service_error_text(*self),
    {
        match self {
            ServiceError::Internal => "Internal error".to_string(),
            ServiceError::UserAlreadyExist => "User already exists".to_string(),
            ServiceError::NoPotentialMatchFound => "No potential match found".to_string(),
            ServiceError::Sqlite(_) => "Sqlite internal error".to_string(),
            ServiceError::ForbiddenQuery => "Query forbidden error".to_string(),
            ServiceError::ValueNotAccepted(value, reason) => {
                let mut s = String::from_str("SQL provided value not accepted, value = ");
                s.append(value.as_str());
                s.append(" reason : ");
                s.append(reason.as_str());
                s
            },
            ServiceError::Conflict => "Already swiped".to_string(),
            ServiceError::Transaction => "Transaction error".to_string(),
            ServiceError::UnknownServiceProblem => "Unknown service layer error".to_string(),
        }
    }

    /// HTTP status code for this error.
    pub fn status_code(&self) -> (r: u16)
        ensures
            r == service_error_status(*self),
    {
        match self {
            ServiceError::Internal => 500,
            ServiceError::UserAlreadyExist => 422,
            ServiceError::NoPotentialMatchFound => 404,
            ServiceError::Sqlite(SqliteError::NotFound) => 404,
            ServiceError::Sqlite(_) => 500,
            ServiceError::ForbiddenQuery => 403,
            ServiceError::ValueNotAccepted(_, _) => 403,
            ServiceError::Conflict => 409,
            ServiceError::Transaction => 500,
            ServiceError::UnknownServiceProblem => 500,
        }
    }

    /// The response body that reports this error.
    pub fn to_api_error(&self) -> (r: ApiResponseError)
        ensures
            r.error_message@ == service_error_text(*self),
            r.error_code == ErrorCode::UnspecifiedError,
    {
        ApiResponseError { error_message: self.error_message(), error_code: ErrorCode::UnspecifiedError }
    }
}

/// A storage failure reaches callers as an opaque internal error.
impl From<SqliteError> for ServiceError {
    fn from(e: SqliteError) -> (r: ServiceError)
        ensures
            r == ServiceError::Internal,
    {
        ServiceError::Internal
    }
}

impl vstd::std_specs::convert::FromSpecImpl<SqliteError> for ServiceError {
    open spec fn obeys_from_spec() -> bool {
        true
    }

    open spec fn from_spec(e: SqliteError) -> ServiceError {
        ServiceError::Internal
    }
}

/// The HTTP status and message of each authentication error.
pub open spec fn auth_error_response(e: AuthError) -> (u16, Seq<char>) {
    match e {
        AuthError::WrongCredentials => (401, "Wrong credentials"@),
        AuthError::TokenCreation => (500, "Token creation error"@),
        AuthError::InvalidToken => (400, "Invalid token"@),
    }
}

impl AuthError {
    /// HTTP status and message reported for this error.
    pub fn response_parts(&self) -> (r: (u16, String))
        ensures
            (r.0, r.1@) == auth_error_response(*self),
    {
        match self {
            AuthError::WrongCredentials => (401, "Wrong credentials".to_string()),
            AuthError::TokenCreation => (500, "Token creation error".to_string()),
            AuthError::InvalidToken => (400, "Invalid token".to_string()),
        }
    }
}

} // verus!
