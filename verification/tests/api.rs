use patentrag::api::{QueryPayload, QueryResponse, SearchPayload};
use patentrag::error::{ProviderFailure, RagError};
use patentrag::provider::{embedding_request, failure_of_status, first_embedding};
use patentrag::search::SearchRequest;

#[test]
fn search_payload_defaults_to_five() {
    let p = SearchPayload::new("gear".to_string(), None);
    assert_eq!(p, SearchPayload { query: "gear".to_string(), top_k: 5 });
    let p = SearchPayload::new("gear".to_string(), Some(2));
    assert_eq!(p.top_k, 2);
    let p = SearchPayload::new("gear".to_string(), Some(-1));
    assert_eq!(p.top_k, -1);
}

#[test]
fn query_payload_defaults_to_five() {
    let p = QueryPayload::new("why?".to_string(), None);
    assert_eq!(p, QueryPayload { question: "why?".to_string(), top_k: 5 });
    let p = QueryPayload::new("why?".to_string(), Some(9));
    assert_eq!(p.top_k, 9);
}

#[test]
fn payload_becomes_request() {
    let r = SearchPayload::new("gear".to_string(), Some(3)).into_request();
    assert_eq!(r, SearchRequest { query: "gear".to_string(), top_k: 3 });
}

#[test]
fn response_holds_the_answer() {
    let r = QueryResponse { answer: "It turns [1].".to_string() };
    assert_eq!(r.answer, "It turns [1].");
}

#[test]
fn embedding_request_is_one_text_for_the_fixed_model() {
    let r = embedding_request("a gear train");
    assert_eq!(r.input, "a gear train");
    assert_eq!(r.model, "text-embedding-ada-002");
}

#[test]
fn first_vector_is_the_embedding() {
    assert_eq!(first_embedding(vec![vec![1, 2], vec![3]]), Ok(vec![1, 2]));
    assert_eq!(first_embedding(vec![vec![]]), Ok(vec![]));
    assert_eq!(first_embedding(Vec::new()), Err(RagError::MalformedResponse));
}

#[test]
fn every_error_has_its_message() {
    let all = [
        RagError::Persistence,
        RagError::Provider(ProviderFailure::Unauthorized),
        RagError::Provider(ProviderFailure::RateLimited),
        RagError::Provider(ProviderFailure::Network),
        RagError::Provider(ProviderFailure::Malformed),
        RagError::MalformedResponse,
        RagError::InvalidArgument,
    ];
    let messages: Vec<String> = all.iter().map(|e| e.message()).collect();
    assert_eq!(messages[5], "Invalid API response");
    for (i, a) in messages.iter().enumerate() {
        assert!(!a.is_empty());
        for b in &messages[i + 1..] {
            assert_ne!(a, b);
        }
    }
}

#[test]
fn statuses_and_what_they_mean() {
    assert_eq!(failure_of_status(200), None);
    assert_eq!(failure_of_status(204), None);
    assert_eq!(failure_of_status(299), None);
    assert_eq!(failure_of_status(401), Some(ProviderFailure::Unauthorized));
    assert_eq!(failure_of_status(403), Some(ProviderFailure::Unauthorized));
    assert_eq!(failure_of_status(429), Some(ProviderFailure::RateLimited));
    assert_eq!(failure_of_status(500), Some(ProviderFailure::Network));
    assert_eq!(failure_of_status(503), Some(ProviderFailure::Network));
    assert_eq!(failure_of_status(599), Some(ProviderFailure::Network));
    assert_eq!(failure_of_status(199), Some(ProviderFailure::Malformed));
    assert_eq!(failure_of_status(300), Some(ProviderFailure::Malformed));
    assert_eq!(failure_of_status(400), Some(ProviderFailure::Malformed));
    assert_eq!(failure_of_status(404), Some(ProviderFailure::Malformed));
    assert_eq!(failure_of_status(600), Some(ProviderFailure::Malformed));
    assert_eq!(failure_of_status(0), Some(ProviderFailure::Malformed));
}
