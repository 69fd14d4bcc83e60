//! Retrieval-augmented answering over a corpus of patent text: chunking,
//! embedding-cache decisions, result selection and prompt assembly.

pub mod answer;
pub mod api;
pub mod backfill;
pub mod cache;
pub mod chunker;
pub mod cli;
pub mod error;
pub mod fingerprint;
pub mod ingest;
pub mod json;
pub mod prompt;
pub mod provider;
pub mod search;
pub mod text;
