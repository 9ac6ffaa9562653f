//! Domain error kinds and their mapping to transport status codes.

use vstd::prelude::*;

verus! {

/// The ways an operation on the store can fail.
///
/// `NotFound` covers every missing-row case (document, tag, knowledge base,
/// dialog or user looked up by an id that has no active row). `Duplicate` is
/// the business error for name and email collisions, detected by a prior
/// read. `LoginFailed` is returned when no user matches an email/password
/// pair.
#[derive(Clone, Copy, Debug, PartialEq, Eq, Structural)]
pub enum Error {
    NotFound,
    Duplicate,
    LoginFailed,
}

impl Error {
    /// The HTTP status code this error kind maps to.
    ///
    /// Missing rows and failed logins surface as 404; duplicate names and
    /// emails as 409 (a proper status in place of a domain code carried in a
    /// 200 body).
    pub fn status_code(&self) -> (code: u16)
        ensures
            code == self.spec_status_code(),
    {
        match self {
            Error::NotFound => 404,
            Error::Duplicate => 409,
            Error::LoginFailed => 404,
        }
    }

    pub open spec fn spec_status_code(self) -> u16 {
        match self {
            Error::NotFound => 404,
            Error::Duplicate => 409,
            Error::LoginFailed => 404,
        }
    }
}

} // verus!
