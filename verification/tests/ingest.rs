use patentrag::chunker::chunk_text;
use patentrag::ingest::{assemble_text, plan_document, CHUNK_OVERLAP, CHUNK_SIZE};
use patentrag::prompt::last_segment_chars;

fn numbered_words(n: usize) -> String {
    let words: Vec<String> = (0..n).map(|i| format!("w{}", i)).collect();
    words.join(" ")
}

#[test]
fn default_parameters() {
    assert_eq!(CHUNK_SIZE, 800);
    assert_eq!(CHUNK_OVERLAP, 200);
}

#[test]
fn pages_are_joined_and_white_space_collapsed() {
    let pages = vec!["  First  page\n".to_string(), "second\tpage".to_string(), "".to_string()];
    assert_eq!(assemble_text(&pages), "First page second page");
    assert_eq!(assemble_text(&Vec::new()), "");
    assert_eq!(assemble_text(&vec![" \n ".to_string()]), "");
}

#[test]
fn words_at_page_ends_stay_apart() {
    let pages = vec!["end".to_string(), "start".to_string()];
    assert_eq!(assemble_text(&pages), "end start");
}

#[test]
fn empty_document_has_no_chunks() {
    assert!(plan_document("p1", "").is_empty());
}

#[test]
fn short_document_is_one_chunk() {
    let chunks = plan_document("US-7", "a  small\tclaim");
    assert_eq!(chunks.len(), 1);
    assert_eq!(chunks[0].patent_id, "US-7");
    assert_eq!(chunks[0].chunk_id, "US-7-0");
    assert_eq!(chunks[0].text, "a small claim");
    assert_eq!(chunks[0].embedding, None);
}

#[test]
fn chunk_ids_count_up_from_zero() {
    let text = numbered_words(7000);
    let chunks = plan_document("p", &text);
    let texts = chunk_text(&text, 800, 200);
    assert_eq!(chunks.len(), 12);
    assert_eq!(texts.len(), 12);
    for (i, chunk) in chunks.iter().enumerate() {
        assert_eq!(chunk.patent_id, "p");
        assert_eq!(chunk.chunk_id, format!("p-{}", i));
        assert_eq!(chunk.text, texts[i]);
        assert!(chunk.embedding.is_none());
        assert!(chunk.text.starts_with(&format!("w{} ", 600 * i)));
    }
    let mut ids: Vec<&String> = chunks.iter().map(|c| &c.chunk_id).collect();
    ids.sort();
    ids.dedup();
    assert_eq!(ids.len(), 12);
}

#[test]
fn sixteen_hundred_word_document() {
    let chunks = plan_document("doc", &numbered_words(1600));
    let starts: Vec<&str> =
        chunks.iter().map(|c| c.text.split(' ').next().unwrap()).collect();
    assert_eq!(starts, vec!["w0", "w600", "w1200"]);
    assert_eq!(chunks[0].text.split(' ').count(), 800);
    assert_eq!(chunks[1].text.split(' ').count(), 800);
    assert_eq!(chunks[2].text.split(' ').count(), 400);
    assert!(chunks[2].text.ends_with(" w1599"));
}

#[test]
fn citation_segment_is_the_place_of_the_chunk() {
    let chunks = plan_document("US-2020-12", &numbered_words(2500));
    for (i, chunk) in chunks.iter().enumerate() {
        let id: Vec<char> = chunk.chunk_id.chars().collect();
        let tail: String = last_segment_chars(&id).into_iter().collect();
        assert_eq!(tail, i.to_string());
    }
}
