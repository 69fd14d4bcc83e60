use patentrag::answer::{answer_of_document, chat_request, extract_answer, query_response};
use patentrag::api::QueryResponse;
use patentrag::error::RagError;
use patentrag::json::{parse_json, Json, Member};
use patentrag::prompt::build_prompt;
use patentrag::search::SearchResult;

fn member(key: &str, value: Json) -> Member {
    Member { key: key.to_string(), value }
}

fn text(s: &str) -> Json {
    Json::Text(s.to_string())
}

#[test]
fn chat_request_has_fixed_model_and_system_turn() {
    let results = vec![SearchResult {
        patent_id: "42".to_string(),
        chunk_id: "42-7".to_string(),
        snippet: "a gear".to_string(),
        distance_bits: 0,
    }];
    let request = chat_request("why?", &results);
    assert_eq!(request.model, "gpt-4o-mini");
    assert_eq!(request.system, "You\u{2019}re a precise, citation-driven patent assistant.");
    assert_eq!(request.user, build_prompt("why?", &results));
}

#[test]
fn parse_reads_every_kind_of_value() {
    let doc = parse_json(r#"{"b": [1, -2.5, "x", null, true], "a": {"k": "v"}}"#).unwrap();
    assert_eq!(
        doc,
        Json::Object(vec![
            member("a", Json::Object(vec![member("k", text("v"))])),
            member(
                "b",
                Json::Array(vec![
                    Json::Number("1".to_string()),
                    Json::Number("-2.5".to_string()),
                    text("x"),
                    Json::Null,
                    Json::Bool(true),
                ])
            ),
        ])
    );
}

#[test]
fn parse_rejects_what_is_no_json() {
    assert_eq!(parse_json(""), Err(RagError::MalformedResponse));
    assert_eq!(parse_json("{"), Err(RagError::MalformedResponse));
    assert_eq!(parse_json("{\"a\": 1} trailing"), Err(RagError::MalformedResponse));
    assert_eq!(parse_json("<html>"), Err(RagError::MalformedResponse));
}

#[test]
fn parse_keeps_the_last_of_duplicate_keys() {
    let doc = parse_json(r#"{"a": 1, "a": 2}"#).unwrap();
    assert_eq!(doc, Json::Object(vec![member("a", Json::Number("2".to_string()))]));
}

#[test]
fn lookups() {
    let doc = Json::Object(vec![
        member("a", text("one")),
        member("b", Json::Array(vec![text("x"), text("y")])),
    ]);
    assert_eq!(doc.get_member("a"), Some(&text("one")));
    assert_eq!(doc.get_member("c"), None);
    assert_eq!(doc.get_element(0), None);
    let list = doc.get_member("b").unwrap();
    assert_eq!(list.get_element(1), Some(&text("y")));
    assert_eq!(list.get_element(2), None);
    assert_eq!(list.get_member("a"), None);
    assert_eq!(text("z").as_text(), Some(&"z".to_string()));
    assert_eq!(Json::Null.as_text(), None);
    assert_eq!(Json::Number("1".to_string()).as_text(), None);
}

#[test]
fn answer_is_first_completion_content() {
    let body = r#"{"id": "c1", "choices": [
        {"index": 0, "message": {"role": "assistant", "content": "It turns [1]."}},
        {"index": 1, "message": {"role": "assistant", "content": "other"}}
    ]}"#;
    assert_eq!(extract_answer(body), Ok("It turns [1].".to_string()));
    assert_eq!(
        query_response(body),
        Ok(QueryResponse { answer: "It turns [1].".to_string() })
    );
}

#[test]
fn empty_content_is_returned_as_it_is() {
    let body = r#"{"choices": [{"message": {"content": ""}}]}"#;
    assert_eq!(extract_answer(body), Ok(String::new()));
}

#[test]
fn missing_fields_are_malformed() {
    let bodies = [
        r#"{}"#,
        r#"{"choices": []}"#,
        r#"{"choices": {"0": {"message": {"content": "x"}}}}"#,
        r#"{"choices": [{}]}"#,
        r#"{"choices": [{"message": {}}]}"#,
        r#"{"choices": [{"message": {"content": null}}]}"#,
        r#"{"choices": [{"message": {"content": 3}}]}"#,
        r#"{"choices": [{"message": "content"}]}"#,
        r#"{"choices": [["message"]]}"#,
        r#"{"error": {"message": "rate limit"}}"#,
        r#"[{"choices": []}]"#,
        r#"null"#,
        r#"not json"#,
    ];
    for body in bodies {
        assert_eq!(extract_answer(body), Err(RagError::MalformedResponse), "{}", body);
        assert_eq!(query_response(body), Err(RagError::MalformedResponse), "{}", body);
    }
}

#[test]
fn answer_of_a_built_document() {
    let doc = Json::Object(vec![member(
        "choices",
        Json::Array(vec![Json::Object(vec![member(
            "message",
            Json::Object(vec![member("role", text("assistant")), member("content", text("yes"))]),
        )])]),
    )]);
    assert_eq!(answer_of_document(&doc), Ok("yes".to_string()));
    assert_eq!(answer_of_document(&Json::Null), Err(RagError::MalformedResponse));
    assert_eq!(
        answer_of_document(&Json::Array(vec![doc])),
        Err(RagError::MalformedResponse)
    );
}

#[test]
fn answer_agrees_with_indexing_the_parsed_value() {
    let bodies = [
        r#"{"choices": [{"message": {"content": "a"}}]}"#,
        r#"{"choices": [{"message": {"content": ["a"]}}]}"#,
        r#"{"choices": "x"}"#,
        r#"{"choices": [null]}"#,
    ];
    for body in bodies {
        let value = serde_json::from_str::<serde_json::Value>(body).unwrap();
        let theirs = value["choices"][0]["message"]["content"].as_str().map(|s| s.to_string());
        assert_eq!(extract_answer(body).ok(), theirs, "{}", body);
    }
}
