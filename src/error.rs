//! Errors of the client.
use vstd::prelude::*;

verus! {

/// What can go wrong while talking to the platform.
#[derive(Debug, Clone, PartialEq, Eq)]
pub enum ClientError {
    SessionNotFound,
    SeedNotConfigured,
    EventNotConfigured,
    HttpError(String),
    DecryptionError(String),
    InvalidSeed(String),
}

impl ClientError {
    /// The text an error carries; empty for those that carry none.
    pub open spec fn message(self) -> Seq<char> {
        match self {
            ClientError::HttpError(m) => m@,
            ClientError::DecryptionError(m) => m@,
            ClientError::InvalidSeed(m) => m@,
            _ => Seq::empty(),
        }
    }
}

} // verus!
