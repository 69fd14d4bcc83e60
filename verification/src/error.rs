//! The failures that the library reports.

use vstd::prelude::*;
use vstd::string::*;

verus! {

/// Why the embedding or chat provider did not answer.
#[derive(Clone, Copy, Debug, PartialEq, Eq, Structural)]
pub enum ProviderFailure {
    /// The provider refused the credentials.
    Unauthorized,
    /// The provider asked the caller to slow down.
    RateLimited,
    /// The provider could not be reached, or the call timed out.
    Network,
    /// The provider's answer could not be read.
    Malformed,
}

/// A failure of the pipeline.
#[derive(Clone, Copy, Debug, PartialEq, Eq, Structural)]
pub enum RagError {
    /// The store could not be reached or refused a row.
    Persistence,
    /// The embedding or chat provider failed.
    Provider(ProviderFailure),
    /// An answer from outside lacks a field that must be there.
    MalformedResponse,
    /// An argument is missing or out of range.
    InvalidArgument,
}

impl RagError {
    /// A short description of the failure for a person to read.
    pub fn message(&self) -> (text: String)
        ensures
            text@ == match *self {
                RagError::Persistence => "the store failed"@,
                RagError::Provider(ProviderFailure::Unauthorized) => "provider rejected the credentials"@,
                RagError::Provider(ProviderFailure::RateLimited) => "provider rate limit reached"@,
                RagError::Provider(ProviderFailure::Network) => "provider unreachable"@,
                RagError::Provider(ProviderFailure::Malformed) => "provider answer unreadable"@,
                RagError::MalformedResponse => "Invalid API response"@,
                RagError::InvalidArgument => "invalid argument"@,
            },
    {
        match *self {
            RagError::Persistence => String::from_str("the store failed"),
            RagError::Provider(ProviderFailure::Unauthorized) => String::from_str(
                "provider rejected the credentials",
            ),
            RagError::Provider(ProviderFailure::RateLimited) => String::from_str(
                "provider rate limit reached",
            ),
            RagError::Provider(ProviderFailure::Network) => String::from_str("provider unreachable"),
            RagError::Provider(ProviderFailure::Malformed) => String::from_str(
                "provider answer unreadable",
            ),
            RagError::MalformedResponse => String::from_str("Invalid API response"),
            RagError::InvalidArgument => String::from_str("invalid argument"),
        }
    }
}

} // verus!
