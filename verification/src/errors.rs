use vstd::prelude::*;

verus! {

/// The error taxonomy of the watchdog.  REST surfaces these as 404, 500,
/// 400, 409 and 500 respectively.
#[derive(Debug, Clone)]
pub enum AppError {
    NotFound(String),
    DatabaseError(String),
    BadRequest(String),
    Conflict(String),
    InternalError(String),
}

impl AppError {
    /// The message carried by the error, whichever variant it is.
    pub fn message(&self) -> (r: &String)
        ensures
            r@ == self.spec_message(),
    {
        match self {
            AppError::NotFound(m) => m,
            AppError::DatabaseError(m) => m,
            AppError::BadRequest(m) => m,
            AppError::Conflict(m) => m,
            AppError::InternalError(m) => m,
        }
    }

    pub open spec fn spec_message(&self) -> Seq<char> {
        match self {
            AppError::NotFound(m) => m@,
            AppError::DatabaseError(m) => m@,
            AppError::BadRequest(m) => m@,
            AppError::Conflict(m) => m@,
            AppError::InternalError(m) => m@,
        }
    }
}

/// Builds an error message from a fixed prefix and a detail, by
/// concatenation.
pub fn compose_message(prefix: &str, detail: &str) -> (r: String)
    ensures
        r@ == prefix@ + detail@,
{
    let mut s = String::from_str(prefix);
    s.append(detail);
    s
}

} // verus!
