//! The bodies of the two HTTP requests and of the answer.

use vstd::prelude::*;
use crate::search::{default_top_k, SearchRequest};

verus! {

/// The body of a search request.
#[derive(Debug, PartialEq, Eq)]
pub struct SearchPayload {
    pub query: String,
    pub top_k: i64,
}

/// The body of a question.
#[derive(Debug, PartialEq, Eq)]
pub struct QueryPayload {
    pub question: String,
    pub top_k: i64,
}

/// The body of the answer to a question.
#[derive(Debug, PartialEq, Eq)]
pub struct QueryResponse {
    pub answer: String,
}

/// The count that stands for one the caller left out.
pub open spec fn top_k_or_default(top_k: Option<i64>) -> i64 {
    match top_k {
        Some(k) => k,
        None => 5,
    }
}

impl SearchPayload {
    /// A search body; a count left out is 5.
    pub fn new(query: String, top_k: Option<i64>) -> (p: SearchPayload)
        ensures
            p.query == query,
            p.top_k == top_k_or_default(top_k),
    {
        let top_k = match top_k {
            Some(k) => k,
            None => default_top_k(),
        };
        SearchPayload { query, top_k }
    }

    /// The retriever's request for this body, with the same query and count.
    pub fn into_request(self) -> (r: SearchRequest)
        ensures
            r.query == self.query,
            r.top_k == self.top_k,
    {
        SearchRequest { query: self.query, top_k: self.top_k }
    }
}

impl QueryPayload {
    /// A question body; a count left out is 5.
    pub fn new(question: String, top_k: Option<i64>) -> (p: QueryPayload)
        ensures
            p.question == question,
            p.top_k == top_k_or_default(top_k),
    {
        let top_k = match top_k {
            Some(k) => k,
            None => default_top_k(),
        };
        QueryPayload { question, top_k }
    }
}

} // verus!
