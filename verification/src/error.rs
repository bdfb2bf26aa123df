//! The service's error taxonomy and its pure HTTP-facing translation:
//! which status code and which message body each error carries. Building
//! the transport response out of these is left to the HTTP layer.
use vstd::prelude::*;
use vstd::string::StringExecFns;

verus! {

/// A request that could not be served, classified once and never
/// silently swallowed.
#[derive(Debug)]
pub enum AppError {
    /// The caller-supplied code violates the length or alphabet rules.
    BadRequest(String),
    /// The caller-supplied code is already taken, or generated codes
    /// kept colliding until the retry budget ran out.
    Conflict(String),
    /// No link is bound to the requested code. Carries the name of the
    /// entity that was looked up, when one is worth naming.
    NotFound(Option<String>),
    /// An unexpected persistence failure; details are not leaked.
    Internal,
}

impl AppError {
    /// The HTTP status code this error translates to.
    pub fn status(&self) -> (s: u16)
        ensures
            s == match self {
                AppError::BadRequest(_) => 400u16,
                AppError::Conflict(_) => 409u16,
                AppError::NotFound(_) => 404u16,
                AppError::Internal => 500u16,
            },
    {
        match self {
            AppError::BadRequest(_) => 400,
            AppError::Conflict(_) => 409,
            AppError::NotFound(_) => 404,
            AppError::Internal => 500,
        }
    }

    /// The message body this error translates to.
    pub fn message(&self) -> (m: String)
        ensures
            match self {
                AppError::BadRequest(t) => m@ == t@,
                AppError::Conflict(t) => m@ == t@,
                AppError::NotFound(Some(n)) => m@ == n@ + " not found"@,
                AppError::NotFound(None) => m@ == "not found"@,
                AppError::Internal => m@ == "internal error"@,
            },
    {
        match self {
            AppError::BadRequest(t) => t.clone(),
            AppError::Conflict(t) => t.clone(),
            AppError::NotFound(Some(n)) => n.clone().concat(" not found"),
            AppError::NotFound(None) => "not found".to_owned(),
            AppError::Internal => "internal error".to_owned(),
        }
    }
}

} // verus!
