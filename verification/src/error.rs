//! The failures that the crate reports.

use vstd::prelude::*;

verus! {

/// Why a refresh or a verification failed.
#[derive(Debug, Clone, Copy, PartialEq, Eq, Structural)]
pub enum SigninError {
    /// The provider could not be reached, or its answer could not be read.
    ConnectionError,
    /// A key identifier was named that the cache does not hold.
    UnknownKey,
    /// The token was not accepted.
    InvalidToken,
    /// The token's header could not be decoded.
    MalformedHeader,
}

impl SigninError {
    /// A short description of the failure.
    pub fn message(&self) -> (text: &'static str)
        ensures
            text@ == match *self {
                SigninError::ConnectionError => "connection error"@,
                SigninError::UnknownKey => "unknown key"@,
                SigninError::InvalidToken => "invalid token"@,
                SigninError::MalformedHeader => "malformed header"@,
            },
    {
        match self {
            SigninError::ConnectionError => "connection error",
            SigninError::UnknownKey => "unknown key",
            SigninError::InvalidToken => "invalid token",
            SigninError::MalformedHeader => "malformed header",
        }
    }
}

} // verus!
