use vstd::prelude::*;

verus! {

/// The closed set of failures an operation of the platform can report.
#[derive(Debug)]
pub enum AppError {
    /// A store failure, a hashing failure, or a token that could not be signed.
    InternalServerError,
    /// A validation failure or a business rule that was not met.
    BadRequest(String),
    /// A missing, malformed, badly signed or expired token, or bad credentials.
    Unauthorized,
    /// The referenced resource is absent or not owned by the caller.
    NotFound,
    /// A uniqueness violation on registration.
    Conflict(String),
}

/// The HTTP status code that reports each kind of failure.
pub open spec fn status_of(e: AppError) -> u16 {
    match e {
        AppError::InternalServerError => 500,
        AppError::BadRequest(_) => 400,
        AppError::Unauthorized => 401,
        AppError::NotFound => 404,
        AppError::Conflict(_) => 409,
    }
}

/// The text of the `error` field in the body that reports a failure.
pub open spec fn message_of(e: AppError) -> Seq<char> {
    match e {
        AppError::InternalServerError => "Internal Server Error"@,
        AppError::BadRequest(m) => m@,
        AppError::Unauthorized => "Unauthorized"@,
        AppError::NotFound => "Resource Not Found"@,
        AppError::Conflict(m) => m@,
    }
}

impl AppError {
    pub fn status_code(&self) -> (r: u16)
        ensures
            r == status_of(*self),
    {
        match self {
            AppError::InternalServerError => 500,
            AppError::BadRequest(_) => 400,
            AppError::Unauthorized => 401,
            AppError::NotFound => 404,
            AppError::Conflict(_) => 409,
        }
    }

    /// The message a client sees in the `error` field of the response body.
    pub fn error_message(&self) -> (r: String)
        ensures
            r@ == message_of(*self),
    {
        match self {
            AppError::InternalServerError => String::from_str("Internal Server Error"),
            AppError::BadRequest(m) => m.clone(),
            AppError::Unauthorized => String::from_str("Unauthorized"),
            AppError::NotFound => String::from_str("Resource Not Found"),
            AppError::Conflict(m) => m.clone(),
        }
    }

    pub fn bad_request(msg: &str) -> (r: AppError)
        ensures
            r matches AppError::BadRequest(m) && m@ == msg@,
    {
        AppError::BadRequest(String::from_str(msg))
    }

    pub fn conflict(msg: &str) -> (r: AppError)
        ensures
            r matches AppError::Conflict(m) && m@ == msg@,
    {
        AppError::Conflict(String::from_str(msg))
    }
}

} // verus!
