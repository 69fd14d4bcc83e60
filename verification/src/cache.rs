//! Getting the embedding of a text through the cache: what to ask of the
//! cache and of the provider, in which order, and what to return.
//!
//! The library decides; its caller talks to the cache and to the provider
//! and reports what they said.

use vstd::prelude::*;
use crate::error::{ProviderFailure, RagError};
use crate::fingerprint::{cache_key, cache_key_of};

verus! {

/// How long a cached embedding lives, in seconds: one day.
pub const CACHE_TTL_SECONDS: u64 = 86_400;

/// What the caller does next for a text, and what the library waits for.
#[derive(Debug, PartialEq, Eq)]
pub enum EmbedStep {
    /// Look `key` up in the cache.
    Lookup { text: String, key: String },
    /// Ask the provider for the embedding of `text`.
    CallProvider { text: String, key: String },
    /// Write `vector` under `key`, to expire after `ttl_seconds`.
    Store { key: String, vector: Vec<u32>, ttl_seconds: u64 },
    /// Hand `vector` to whoever asked.
    Done { vector: Vec<u32> },
    /// Report `error` to whoever asked.
    Failed { error: RagError },
}

/// What the cache or the provider said.
#[derive(Debug, PartialEq, Eq)]
pub enum EmbedEvent {
    /// The cache holds `vector` under the key.
    CacheHit { vector: Vec<u32> },
    /// The cache holds nothing under the key.
    CacheMiss,
    /// The cache did not answer, or what it holds cannot be read.
    CacheUnavailable,
    /// The provider returned `vector`.
    Embedded { vector: Vec<u32> },
    /// The provider failed.
    ProviderFailed { failure: ProviderFailure },
    /// The cache took the entry.
    Stored,
    /// The cache did not take the entry.
    StoreFailed,
}

/// The mathematical content of an `EmbedStep`.
pub enum StepModel {
    Lookup { text: Seq<char>, key: Seq<char> },
    CallProvider { text: Seq<char>, key: Seq<char> },
    Store { key: Seq<char>, vector: Seq<u32>, ttl_seconds: u64 },
    Done { vector: Seq<u32> },
    Failed { error: RagError },
}

/// The mathematical content of an `EmbedEvent`.
pub enum EventModel {
    CacheHit { vector: Seq<u32> },
    CacheMiss,
    CacheUnavailable,
    Embedded { vector: Seq<u32> },
    ProviderFailed { failure: ProviderFailure },
    Stored,
    StoreFailed,
}

impl View for EmbedStep {
    type V = StepModel;

    open spec fn view(&self) -> StepModel {
        match *self {
            EmbedStep::Lookup { text, key } => StepModel::Lookup { text: text@, key: key@ },
            EmbedStep::CallProvider { text, key } => StepModel::CallProvider {
                text: text@,
                key: key@,
            },
            EmbedStep::Store { key, vector, ttl_seconds } => StepModel::Store {
                key: key@,
                vector: vector@,
                ttl_seconds,
            },
            EmbedStep::Done { vector } => StepModel::Done { vector: vector@ },
            EmbedStep::Failed { error } => StepModel::Failed { error },
        }
    }
}

impl View for EmbedEvent {
    type V = EventModel;

    open spec fn view(&self) -> EventModel {
        match *self {
            EmbedEvent::CacheHit { vector } => EventModel::CacheHit { vector: vector@ },
            EmbedEvent::CacheMiss => EventModel::CacheMiss,
            EmbedEvent::CacheUnavailable => EventModel::CacheUnavailable,
            EmbedEvent::Embedded { vector } => EventModel::Embedded { vector: vector@ },
            EmbedEvent::ProviderFailed { failure } => EventModel::ProviderFailed { failure },
            EmbedEvent::Stored => EventModel::Stored,
            EmbedEvent::StoreFailed => EventModel::StoreFailed,
        }
    }
}

/// The first step for `text`: look its key up.
pub open spec fn first_step(text: Seq<char>) -> StepModel {
    StepModel::Lookup { text, key: cache_key_of(text) }
}

/// The step that follows `step` once `event` has been reported.
///
/// A hit ends the work with the cached vector. A miss, or a cache that does
/// not answer, sends the text to the provider. The provider's vector is
/// written to the cache for one day, and is returned whether or not the
/// cache took it; the provider's failure ends the work with nothing
/// written. An event that the step does not wait for changes nothing.
pub open spec fn next_step(step: StepModel, event: EventModel) -> StepModel {
    match (step, event) {
        (StepModel::Lookup { text, key }, EventModel::CacheHit { vector }) => StepModel::Done {
            vector,
        },
        (StepModel::Lookup { text, key }, EventModel::CacheMiss) => StepModel::CallProvider {
            text,
            key,
        },
        (StepModel::Lookup { text, key }, EventModel::CacheUnavailable) => StepModel::CallProvider {
            text,
            key,
        },
        (StepModel::CallProvider { text, key }, EventModel::Embedded { vector }) => StepModel::Store {
            key,
            vector,
            ttl_seconds: 86_400,
        },
        (
            StepModel::CallProvider { text, key },
            EventModel::ProviderFailed { failure },
        ) => StepModel::Failed { error: RagError::Provider(failure) },
        (StepModel::Store { key, vector, ttl_seconds }, EventModel::Stored) => StepModel::Done {
            vector,
        },
        (StepModel::Store { key, vector, ttl_seconds }, EventModel::StoreFailed) => StepModel::Done {
            vector,
        },
        _ => step,
    }
}

/// What a cache reports when asked for `key` while it holds `entries`.
pub open spec fn lookup_event(entries: Map<Seq<char>, Seq<u32>>, key: Seq<char>) -> EventModel {
    if entries.contains_key(key) {
        EventModel::CacheHit { vector: entries[key] }
    } else {
        EventModel::CacheMiss
    }
}

/// How one whole request for an embedding ended.
pub struct Run {
    /// The last step: `Done` or `Failed`.
    pub outcome: StepModel,
    /// What the cache holds afterwards.
    pub entries: Map<Seq<char>, Seq<u32>>,
    /// How often the provider was asked.
    pub provider_calls: nat,
}

/// One whole request for the embedding of `text`, against a cache that
/// holds `entries` and answers every lookup, a provider that would say
/// `provider_says`, and a cache write that would end as `store_says`.
pub open spec fn run(
    text: Seq<char>,
    entries: Map<Seq<char>, Seq<u32>>,
    provider_says: EventModel,
    store_says: EventModel,
) -> Run {
    let looked = next_step(first_step(text), lookup_event(entries, cache_key_of(text)));
    if looked is CallProvider {
        let asked = next_step(looked, provider_says);
        match asked {
            StepModel::Store { key, vector, ttl_seconds } => Run {
                outcome: next_step(asked, store_says),
                entries: if store_says is Stored {
                    entries.insert(key, vector)
                } else {
                    entries
                },
                provider_calls: 1,
            },
            _ => Run { outcome: asked, entries, provider_calls: 1 },
        }
    } else {
        Run { outcome: looked, entries, provider_calls: 0 }
    }
}

/// Two requests for the same text, the second while the entry that the
/// first wrote is still in the cache, ask the provider once at most: the
/// second is served from the cache and returns what the first returned.
pub proof fn lemma_cache_idempotent(
    text: Seq<char>,
    entries: Map<Seq<char>, Seq<u32>>,
    vector: Seq<u32>,
    provider_says_again: EventModel,
    store_says_again: EventModel,
)
    ensures
        ({
            let first = run(text, entries, EventModel::Embedded { vector }, EventModel::Stored);
            let second = run(text, first.entries, provider_says_again, store_says_again);
            &&& first.outcome is Done
            &&& second.outcome == first.outcome
            &&& second.provider_calls == 0
            &&& second.entries == first.entries
            &&& first.provider_calls == if entries.contains_key(cache_key_of(text)) {
                0nat
            } else {
                1nat
            }
            &&& !entries.contains_key(cache_key_of(text)) ==> first.outcome == (StepModel::Done {
                vector,
            })
        }),
{
}

/// A provider's vector is returned whether or not the cache took it, and is
/// written under the text's key for one day; a provider's failure is
/// reported and nothing is written.
pub proof fn lemma_cache_best_effort(
    text: Seq<char>,
    entries: Map<Seq<char>, Seq<u32>>,
    vector: Seq<u32>,
    failure: ProviderFailure,
    store_says: EventModel,
)
    requires
        !entries.contains_key(cache_key_of(text)),
        store_says is Stored || store_says is StoreFailed,
    ensures
        run(text, entries, EventModel::Embedded { vector }, store_says).outcome == (StepModel::Done {
            vector,
        }),
        next_step(
            next_step(first_step(text), EventModel::CacheMiss),
            EventModel::Embedded { vector },
        ) == (StepModel::Store { key: cache_key_of(text), vector, ttl_seconds: 86_400 }),
        run(text, entries, EventModel::ProviderFailed { failure }, store_says).outcome == (
        StepModel::Failed { error: RagError::Provider(failure) }),
        run(text, entries, EventModel::ProviderFailed { failure }, store_says).entries == entries,
{
}

/// Starts the work for `text`.
pub fn begin_embedding(text: &str) -> (step: EmbedStep)
    ensures
        step@ == first_step(text@),
{
    EmbedStep::Lookup { text: text.to_owned(), key: cache_key(text) }
}

/// Takes what the cache or the provider said and gives the next step.
pub fn advance(step: EmbedStep, event: EmbedEvent) -> (next: EmbedStep)
    ensures
        next@ == next_step(step@, event@),
{
    match step {
        EmbedStep::Lookup { text, key } => match event {
            EmbedEvent::CacheHit { vector } => EmbedStep::Done { vector },
            EmbedEvent::CacheMiss => EmbedStep::CallProvider { text, key },
            EmbedEvent::CacheUnavailable => EmbedStep::CallProvider { text, key },
            _ => EmbedStep::Lookup { text, key },
        },
        EmbedStep::CallProvider { text, key } => match event {
            EmbedEvent::Embedded { vector } => EmbedStep::Store {
                key,
                vector,
                ttl_seconds: CACHE_TTL_SECONDS,
            },
            EmbedEvent::ProviderFailed { failure } => EmbedStep::Failed {
                error: RagError::Provider(failure),
            },
            _ => EmbedStep::CallProvider { text, key },
        },
        EmbedStep::Store { key, vector, ttl_seconds } => match event {
            EmbedEvent::Stored => EmbedStep::Done { vector },
            EmbedEvent::StoreFailed => EmbedStep::Done { vector },
            _ => EmbedStep::Store { key, vector, ttl_seconds },
        },
        EmbedStep::Done { vector } => EmbedStep::Done { vector },
        EmbedStep::Failed { error } => EmbedStep::Failed { error },
    }
}

} // verus!
