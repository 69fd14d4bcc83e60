use patentrag::prompt::{build_prompt, last_segment_chars};
use patentrag::search::SearchResult;

fn hit(patent: &str, chunk: &str, text: &str) -> SearchResult {
    SearchResult {
        patent_id: patent.to_string(),
        chunk_id: chunk.to_string(),
        snippet: text.to_string(),
        distance_bits: 0,
    }
}

fn segment(s: &str) -> String {
    let chars: Vec<char> = s.chars().collect();
    last_segment_chars(&chars).into_iter().collect()
}

#[test]
fn last_segment_follows_the_last_dash() {
    assert_eq!(segment("42-7"), "7");
    assert_eq!(segment("US-2020-0012-13"), "13");
    assert_eq!(segment("nodash"), "nodash");
    assert_eq!(segment("trailing-"), "");
    assert_eq!(segment(""), "");
    assert_eq!(segment("-"), "");
}

#[test]
fn last_segment_agrees_with_split() {
    for id in ["a-b-c", "abc", "-x", "x-", "", "--", "p-10"] {
        assert_eq!(segment(id), id.split('-').last().unwrap_or(""));
    }
}

#[test]
fn prompt_without_results() {
    let prompt = build_prompt("What is claimed?", &Vec::new());
    assert_eq!(
        prompt,
        "You are a patent expert. Answer using ONLY the context. Cite each point like [1], [2].\n\nQuestion: What is claimed?\n\nContext:\n"
    );
}

#[test]
fn prompt_with_two_results() {
    let results = vec![hit("42", "42-7", "a gear train"), hit("US-9", "US-9-0", "a housing")];
    let prompt = build_prompt("How does it turn?", &results);
    assert_eq!(
        prompt,
        "You are a patent expert. Answer using ONLY the context. Cite each point like [1], [2].\n\nQuestion: How does it turn?\n\nContext:\n[1] (42-7): a gear train\n\n[2] (US-9-0): a housing\n\n"
    );
}

#[test]
fn citation_numbers_follow_the_order_of_the_results() {
    let results: Vec<SearchResult> = (0..12)
        .map(|i| hit("p", &format!("p-{}", 100 - i), &format!("snippet number {}", i)))
        .collect();
    let prompt = build_prompt("q", &results);
    let mut from = 0;
    for (i, r) in results.iter().enumerate() {
        let block = format!("[{}] (p-{}): {}\n\n", i + 1, 100 - i, r.snippet);
        let at = prompt[from..].find(&block).expect("block in order") + from;
        from = at + block.len();
    }
    assert_eq!(from, prompt.len());
}

#[test]
fn prompt_matches_plain_formatting() {
    let results = vec![hit("a-b", "a-b-3", "x\ny"), hit("", "", ""), hit("z", "z", "-")];
    let question = "line one\nline two";
    let mut expected = format!(
        "You are a patent expert. Answer using ONLY the context. Cite each point like [1], [2].\n\nQuestion: {}\n\nContext:\n",
        question
    );
    for (i, r) in results.iter().enumerate() {
        expected.push_str(&format!(
            "[{}] ({}-{}): {}\n\n",
            i + 1,
            r.patent_id,
            r.chunk_id.split('-').last().unwrap_or(""),
            r.snippet
        ));
    }
    assert_eq!(build_prompt(question, &results), expected);
}
