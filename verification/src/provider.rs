//! What is asked of the embedding provider, and what is taken from its
//! answer.

use vstd::prelude::*;
use vstd::string::*;
use crate::error::{ProviderFailure, RagError};

verus! {

/// One text to embed, and the model to embed it with.
#[derive(Debug, PartialEq, Eq)]
pub struct EmbeddingRequest {
    pub input: String,
    pub model: String,
}

/// The embedding model.
pub open spec fn embedding_model() -> Seq<char> {
    "text-embedding-ada-002"@
}

/// The request for the embedding of `text`: exactly this one text, for the
/// fixed embedding model.
pub fn embedding_request(text: &str) -> (request: EmbeddingRequest)
    ensures
        request.input@ == text@,
        request.model@ == embedding_model(),
{
    EmbeddingRequest { input: text.to_owned(), model: String::from_str("text-embedding-ada-002") }
}

/// What an HTTP status of the provider means.
pub open spec fn status_failure(status: u16) -> Option<ProviderFailure> {
    if 200 <= status <= 299 {
        None
    } else if status == 401 || status == 403 {
        Some(ProviderFailure::Unauthorized)
    } else if status == 429 {
        Some(ProviderFailure::RateLimited)
    } else if 500 <= status <= 599 {
        Some(ProviderFailure::Network)
    } else {
        Some(ProviderFailure::Malformed)
    }
}

/// Tells a failed call from a successful one by its HTTP status: 2xx is a
/// success, 401 and 403 are refused credentials, 429 is the rate limit, 5xx
/// is a provider that cannot serve, and anything else is an answer that
/// cannot be read.
pub fn failure_of_status(status: u16) -> (failure: Option<ProviderFailure>)
    ensures
        failure == status_failure(status),
{
    if 200 <= status && status <= 299 {
        None
    } else if status == 401 || status == 403 {
        Some(ProviderFailure::Unauthorized)
    } else if status == 429 {
        Some(ProviderFailure::RateLimited)
    } else if 500 <= status && status <= 599 {
        Some(ProviderFailure::Network)
    } else {
        Some(ProviderFailure::Malformed)
    }
}

/// Takes the embedding out of the provider's answer: the first of the
/// vectors it sent. An answer without any vector is a malformed response.
pub fn first_embedding(data: Vec<Vec<u32>>) -> (vector: Result<Vec<u32>, RagError>)
    ensures
        data@.len() > 0 ==> vector == Ok::<Vec<u32>, RagError>(data@[0]),
        data@.len() == 0 ==> vector == Err::<Vec<u32>, RagError>(RagError::MalformedResponse),
{
    let mut data = data;
    if data.len() == 0 {
        Err(RagError::MalformedResponse)
    } else {
        Ok(data.swap_remove(0))
    }
}

} // verus!
