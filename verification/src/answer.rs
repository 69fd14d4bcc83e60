//! Answer synthesis: the request put to the chat model and the answer read
//! from what it sent back.

use vstd::prelude::*;
use vstd::string::*;
use crate::api::QueryResponse;
use crate::error::RagError;
use crate::json::{json_document, parse_json, Json};
use crate::prompt::{build_prompt, prompt_text};
use crate::search::{hit_models, SearchResult};

verus! {

/// One chat completion to ask for: the model, the system turn and the user
/// turn.
#[derive(Debug, PartialEq, Eq)]
pub struct ChatRequest {
    pub model: String,
    pub system: String,
    pub user: String,
}

/// The chat model that writes the answers.
pub open spec fn chat_model() -> Seq<char> {
    "gpt-4o-mini"@
}

/// The system turn of every chat request.
pub open spec fn system_turn() -> Seq<char> {
    "You\u{2019}re a precise, citation-driven patent assistant."@
}

/// The chat request for `question` over `results`: the fixed model and
/// system turn, and the prompt as the user turn.
pub fn chat_request(question: &str, results: &Vec<SearchResult>) -> (request: ChatRequest)
    ensures
        request.model@ == chat_model(),
        request.system@ == system_turn(),
        request.user@ == prompt_text(question@, hit_models(results@)),
{
    ChatRequest {
        model: String::from_str("gpt-4o-mini"),
        system: String::from_str("You\u{2019}re a precise, citation-driven patent assistant."),
        user: build_prompt(question, results),
    }
}

/// The text of the first completion in a chat answer: the string at
/// `choices[0].message.content`, or `None` where any step of that path is
/// absent or of another kind.
pub open spec fn completion_text(doc: Json) -> Option<Seq<char>> {
    match doc.member("choices"@) {
        Some(choices) => match choices.element(0) {
            Some(first) => match first.member("message"@) {
                Some(message) => match message.member("content"@) {
                    Some(content) => content.text(),
                    None => None,
                },
                None => None,
            },
            None => None,
        },
        None => None,
    }
}

/// Reads the answer out of a chat answer. It is the first completion's
/// message content; a document without one is a malformed response.
pub fn answer_of_document(doc: &Json) -> (answer: Result<String, RagError>)
    ensures
        match completion_text(*doc) {
            Some(text) => answer is Ok && answer->Ok_0@ == text,
            None => answer == Err::<String, RagError>(RagError::MalformedResponse),
        },
{
    let choices = match doc.get_member("choices") {
        Some(v) => v,
        None => { return Err(RagError::MalformedResponse); },
    };
    let first = match choices.get_element(0) {
        Some(v) => v,
        None => { return Err(RagError::MalformedResponse); },
    };
    let message = match first.get_member("message") {
        Some(v) => v,
        None => { return Err(RagError::MalformedResponse); },
    };
    let content = match message.get_member("content") {
        Some(v) => v,
        None => { return Err(RagError::MalformedResponse); },
    };
    match content.as_text() {
        Some(text) => Ok(text.clone()),
        None => Err(RagError::MalformedResponse),
    }
}

/// Reads the answer out of the body of a chat answer. A body that is no
/// JSON document, or a document without a first completion's message
/// content, is a malformed response.
pub fn extract_answer(body: &str) -> (answer: Result<String, RagError>)
    ensures
        match json_document(body@) {
            Some(doc) => match completion_text(doc) {
                Some(text) => answer is Ok && answer->Ok_0@ == text,
                None => answer == Err::<String, RagError>(RagError::MalformedResponse),
            },
            None => answer == Err::<String, RagError>(RagError::MalformedResponse),
        },
{
    match parse_json(body) {
        Ok(doc) => answer_of_document(&doc),
        Err(error) => Err(error),
    }
}

/// The response for the body of a chat answer.
pub fn query_response(body: &str) -> (response: Result<QueryResponse, RagError>)
    ensures
        match json_document(body@) {
            Some(doc) => match completion_text(doc) {
                Some(text) => response is Ok && response->Ok_0.answer@ == text,
                None => response is Err && response->Err_0 == RagError::MalformedResponse,
            },
            None => response is Err && response->Err_0 == RagError::MalformedResponse,
        },
{
    match extract_answer(body) {
        Ok(answer) => Ok(QueryResponse { answer }),
        Err(error) => Err(error),
    }
}

} // verus!
