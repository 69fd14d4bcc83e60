use patentrag::cache::{advance, begin_embedding, EmbedEvent, EmbedStep, CACHE_TTL_SECONDS};
use patentrag::error::{ProviderFailure, RagError};
use patentrag::fingerprint::cache_key;
use std::collections::HashMap;

/// A cache and a provider in memory, driven by the library's steps.
struct World {
    entries: HashMap<String, Vec<u32>>,
    provider_calls: usize,
    provider_fails: Option<ProviderFailure>,
    store_fails: bool,
    cache_down: bool,
}

fn world() -> World {
    World {
        entries: HashMap::new(),
        provider_calls: 0,
        provider_fails: None,
        store_fails: false,
        cache_down: false,
    }
}

fn embed_of(text: &str) -> Vec<u32> {
    text.bytes().map(|b| (b as f32).to_bits()).collect()
}

fn get_or_compute(w: &mut World, text: &str) -> Result<Vec<u32>, RagError> {
    let mut step = begin_embedding(text);
    loop {
        let event = match &step {
            EmbedStep::Lookup { key, .. } => {
                if w.cache_down {
                    EmbedEvent::CacheUnavailable
                } else {
                    match w.entries.get(key) {
                        Some(v) => EmbedEvent::CacheHit { vector: v.clone() },
                        None => EmbedEvent::CacheMiss,
                    }
                }
            }
            EmbedStep::CallProvider { text, .. } => {
                w.provider_calls += 1;
                match w.provider_fails {
                    Some(failure) => EmbedEvent::ProviderFailed { failure },
                    None => EmbedEvent::Embedded { vector: embed_of(text) },
                }
            }
            EmbedStep::Store { key, vector, ttl_seconds } => {
                assert_eq!(*ttl_seconds, 86_400);
                if w.store_fails || w.cache_down {
                    EmbedEvent::StoreFailed
                } else {
                    w.entries.insert(key.clone(), vector.clone());
                    EmbedEvent::Stored
                }
            }
            EmbedStep::Done { vector } => return Ok(vector.clone()),
            EmbedStep::Failed { error } => return Err(*error),
        };
        step = advance(step, event);
    }
}

#[test]
fn ttl_is_one_day() {
    assert_eq!(CACHE_TTL_SECONDS, 86_400);
}

#[test]
fn first_step_looks_the_key_up() {
    let step = begin_embedding("gear train");
    assert_eq!(
        step,
        EmbedStep::Lookup { text: "gear train".to_string(), key: cache_key("gear train") }
    );
}

#[test]
fn hit_returns_the_cached_vector() {
    let step = begin_embedding("q");
    let step = advance(step, EmbedEvent::CacheHit { vector: vec![7, 8] });
    assert_eq!(step, EmbedStep::Done { vector: vec![7, 8] });
}

#[test]
fn miss_goes_to_the_provider_then_to_the_cache() {
    let step = advance(begin_embedding("q"), EmbedEvent::CacheMiss);
    assert_eq!(step, EmbedStep::CallProvider { text: "q".to_string(), key: cache_key("q") });
    let step = advance(step, EmbedEvent::Embedded { vector: vec![1, 2, 3] });
    assert_eq!(
        step,
        EmbedStep::Store { key: cache_key("q"), vector: vec![1, 2, 3], ttl_seconds: 86_400 }
    );
    let step = advance(step, EmbedEvent::Stored);
    assert_eq!(step, EmbedStep::Done { vector: vec![1, 2, 3] });
}

#[test]
fn unavailable_cache_degrades_to_the_provider() {
    let step = advance(begin_embedding("q"), EmbedEvent::CacheUnavailable);
    assert_eq!(step, EmbedStep::CallProvider { text: "q".to_string(), key: cache_key("q") });
}

#[test]
fn failed_store_still_returns_the_vector() {
    let step = advance(begin_embedding("q"), EmbedEvent::CacheMiss);
    let step = advance(step, EmbedEvent::Embedded { vector: vec![9] });
    let step = advance(step, EmbedEvent::StoreFailed);
    assert_eq!(step, EmbedStep::Done { vector: vec![9] });
}

#[test]
fn provider_failures_are_reported_each_as_itself() {
    for failure in [
        ProviderFailure::Unauthorized,
        ProviderFailure::RateLimited,
        ProviderFailure::Network,
        ProviderFailure::Malformed,
    ] {
        let step = advance(begin_embedding("q"), EmbedEvent::CacheMiss);
        let step = advance(step, EmbedEvent::ProviderFailed { failure });
        assert_eq!(step, EmbedStep::Failed { error: RagError::Provider(failure) });
    }
}

#[test]
fn unexpected_events_change_nothing() {
    let step = advance(begin_embedding("q"), EmbedEvent::Stored);
    assert_eq!(step, begin_embedding("q"));
    let step = advance(step, EmbedEvent::Embedded { vector: vec![1] });
    assert_eq!(step, begin_embedding("q"));
    let waiting = advance(begin_embedding("q"), EmbedEvent::CacheMiss);
    let still = advance(waiting, EmbedEvent::CacheHit { vector: vec![1] });
    assert_eq!(still, EmbedStep::CallProvider { text: "q".to_string(), key: cache_key("q") });
    let done = advance(EmbedStep::Done { vector: vec![4] }, EmbedEvent::CacheMiss);
    assert_eq!(done, EmbedStep::Done { vector: vec![4] });
    let failed = advance(
        EmbedStep::Failed { error: RagError::Persistence },
        EmbedEvent::Embedded { vector: vec![1] },
    );
    assert_eq!(failed, EmbedStep::Failed { error: RagError::Persistence });
}

#[test]
fn second_request_is_served_from_the_cache() {
    let mut w = world();
    let first = get_or_compute(&mut w, "what turns the shaft?").unwrap();
    assert_eq!(w.provider_calls, 1);
    let second = get_or_compute(&mut w, "what turns the shaft?").unwrap();
    assert_eq!(w.provider_calls, 1);
    assert_eq!(first, second);
    assert_eq!(first, embed_of("what turns the shaft?"));
}

#[test]
fn different_texts_are_embedded_separately() {
    let mut w = world();
    get_or_compute(&mut w, "a").unwrap();
    get_or_compute(&mut w, "b").unwrap();
    assert_eq!(w.provider_calls, 2);
    assert_eq!(w.entries.len(), 2);
}

#[test]
fn provider_failure_is_not_cached() {
    let mut w = world();
    w.provider_fails = Some(ProviderFailure::RateLimited);
    assert_eq!(
        get_or_compute(&mut w, "q"),
        Err(RagError::Provider(ProviderFailure::RateLimited))
    );
    assert!(w.entries.is_empty());
    w.provider_fails = None;
    assert_eq!(get_or_compute(&mut w, "q"), Ok(embed_of("q")));
    assert_eq!(w.provider_calls, 2);
}

#[test]
fn cache_outage_costs_a_provider_call_each_time() {
    let mut w = world();
    w.cache_down = true;
    assert_eq!(get_or_compute(&mut w, "q"), Ok(embed_of("q")));
    assert_eq!(get_or_compute(&mut w, "q"), Ok(embed_of("q")));
    assert_eq!(w.provider_calls, 2);
    assert!(w.entries.is_empty());
}
