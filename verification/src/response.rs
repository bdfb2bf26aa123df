//! Successful outcomes of the service and their pure HTTP-facing
//! translation. The HTTP layer turns each variant into a transport
//! response: a JSON body for `Shorten`, a `Location` header for
//! `Redirect`, a plain body for `Health`.
use vstd::prelude::*;

verus! {

/// A request that was served.
#[derive(Debug)]
pub enum AppResponse {
    /// A link was created: the full short URL, then the code.
    Shorten(String, String),
    /// The code resolved; the carried URL is the permanent-redirect target.
    Redirect(String),
    /// The service is up.
    Health,
}

impl AppResponse {
    /// The HTTP status code this response translates to.
    pub fn status(&self) -> (s: u16)
        ensures
            s == match self {
                AppResponse::Shorten(_, _) => 200u16,
                AppResponse::Redirect(_) => 301u16,
                AppResponse::Health => 200u16,
            },
    {
        match self {
            AppResponse::Shorten(_, _) => 200,
            AppResponse::Redirect(_) => 301,
            AppResponse::Health => 200,
        }
    }
}

/// The service is alive; nothing else is checked.
pub fn health() -> (r: AppResponse)
    ensures
        r is Health,
{
    AppResponse::Health
}

} // verus!
