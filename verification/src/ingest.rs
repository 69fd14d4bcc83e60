//! Ingestion: from the pages of a document to the chunks that are stored.

use vstd::prelude::*;
use crate::chunker::{chunk_at, chunk_count, chunk_text};
use crate::prompt::{last_segment, lemma_last_dash_is};
use crate::text::{
    chars_of, decimal, decimal_chars, extend_chars, is_digit, join_words, lemma_decimal_value,
    normalize_whitespace, string_of, words_of,
};

verus! {

/// The number of words in a chunk of an ingested document.
pub const CHUNK_SIZE: usize = 800;

/// The number of words that a chunk shares with the one before it.
pub const CHUNK_OVERLAP: usize = 200;

/// A chunk as it is stored: the unit of retrieval.
#[derive(Debug, PartialEq, Eq)]
pub struct Chunk {
    pub patent_id: String,
    pub chunk_id: String,
    pub text: String,
    /// The bit patterns of the embedding's numbers; absent until the chunk
    /// has been embedded.
    pub embedding: Option<Vec<u32>>,
}

/// The mathematical content of a `Chunk`.
pub struct ChunkModel {
    pub patent_id: Seq<char>,
    pub chunk_id: Seq<char>,
    pub text: Seq<char>,
    pub embedding: Option<Seq<u32>>,
}

impl View for Chunk {
    type V = ChunkModel;

    open spec fn view(&self) -> ChunkModel {
        ChunkModel {
            patent_id: self.patent_id@,
            chunk_id: self.chunk_id@,
            text: self.text@,
            embedding: match self.embedding {
                Some(v) => Some(v@),
                None => None,
            },
        }
    }
}

/// The identifier of the chunk at place `index` of document `patent_id`:
/// the document's identifier, a `-`, and the place in decimal.
pub open spec fn chunk_id_of(patent_id: Seq<char>, index: nat) -> Seq<char> {
    patent_id + seq!['-'] + decimal(index)
}

/// The chunk at place `index` of the document `patent_id` with text
/// `text`, before it is embedded.
pub open spec fn planned_chunk(patent_id: Seq<char>, text: Seq<char>, index: int) -> ChunkModel {
    ChunkModel {
        patent_id,
        chunk_id: chunk_id_of(patent_id, index as nat),
        text: chunk_at(text, index, 800, 200),
        embedding: None,
    }
}

/// The pages one after the other, a space after each.
pub open spec fn pages_text(pages: Seq<Seq<char>>) -> Seq<char>
    decreases pages.len(),
{
    if pages.len() == 0 {
        Seq::empty()
    } else {
        pages_text(pages.drop_last()) + pages.last() + seq![' ']
    }
}

/// The text of a document with the given pages: the words of all pages in
/// order, with single spaces between them.
pub open spec fn document_text(pages: Seq<Seq<char>>) -> Seq<char> {
    join_words(words_of(pages_text(pages)))
}

/// The texts of a vector of pages.
pub open spec fn page_views(pages: Seq<String>) -> Seq<Seq<char>> {
    pages.map_values(|p: String| p@)
}

/// What follows the last `-` of a chunk's identifier is the chunk's place
/// in its document, in decimal, whatever the document's identifier holds.
pub proof fn lemma_chunk_id_segment(patent_id: Seq<char>, index: nat)
    ensures
        last_segment(chunk_id_of(patent_id, index)) == decimal(index),
{
    let id = chunk_id_of(patent_id, index);
    let p = patent_id.len() as int;
    lemma_decimal_value(index);
    assert(id[p] == '-');
    assert forall|k: int| p < k < id.len() implies #[trigger] id[k] != '-' by {
        assert(id[k] == decimal(index)[k - p - 1]);
        assert(is_digit(decimal(index)[k - p - 1]));
    }
    lemma_last_dash_is(id, p);
    assert(id.skip(p + 1) == decimal(index));
}

/// A chunk identifier names one place in one document: two identifiers
/// are equal only where both the documents and the places are.
pub proof fn lemma_chunk_ids_unique(
    patent_a: Seq<char>,
    index_a: nat,
    patent_b: Seq<char>,
    index_b: nat,
)
    requires
        chunk_id_of(patent_a, index_a) == chunk_id_of(patent_b, index_b),
    ensures
        patent_a == patent_b,
        index_a == index_b,
{
    let id = chunk_id_of(patent_a, index_a);
    lemma_chunk_id_segment(patent_a, index_a);
    lemma_chunk_id_segment(patent_b, index_b);
    lemma_decimal_value(index_a);
    lemma_decimal_value(index_b);
    assert(decimal(index_a) == decimal(index_b));
    assert(patent_a.len() == patent_b.len());
    assert(patent_a == id.take(patent_a.len() as int));
    assert(patent_b == id.take(patent_b.len() as int));
}

/// Puts the pages of a document together and writes its words with single
/// spaces between them.
pub fn assemble_text(pages: &Vec<String>) -> (text: String)
    ensures
        text@ == document_text(page_views(pages@)),
{
    let mut full: Vec<char> = Vec::new();
    let ghost views = page_views(pages@);
    let mut i: usize = 0;
    assert(views.take(0).len() == 0);
    while i < pages.len()
        invariant
            i <= pages.len(),
            views == page_views(pages@),
            full@ == pages_text(views.take(i as int)),
        decreases pages.len() - i,
    {
        proof {
            assert(views.take(i + 1).drop_last() == views.take(i as int));
            assert(views.take(i + 1).last() == pages@[i as int]@);
        }
        extend_chars(&mut full, &chars_of(pages[i].as_str()));
        full.push(' ');
        i += 1;
    }
    assert(views.take(views.len() as int) == views);
    string_of(&normalize_whitespace(&full))
}

/// The chunks of the document `patent_id` with text `text`, in order:
/// windows of 800 words that overlap by 200, each with the identifier of
/// its place and without an embedding.
pub fn plan_document(patent_id: &str, text: &str) -> (chunks: Vec<Chunk>)
    ensures
        chunks@.len() == chunk_count(words_of(text@).len() as int, 800, 200),
        forall|k: int|
            0 <= k < chunks@.len() ==> (#[trigger] chunks@[k])@ == planned_chunk(
                patent_id@,
                text@,
                k,
            ),
{
    let texts = chunk_text(text, CHUNK_SIZE, CHUNK_OVERLAP);
    let id_chars = chars_of(patent_id);
    let mut chunks: Vec<Chunk> = Vec::new();
    let mut i: usize = 0;
    while i < texts.len()
        invariant
            i <= texts.len(),
            chunks@.len() == i,
            id_chars@ == patent_id@,
            forall|k: int|
                0 <= k < texts@.len() ==> (#[trigger] texts@[k])@ == chunk_at(text@, k, 800, 200),
            forall|k: int|
                0 <= k < i ==> (#[trigger] chunks@[k])@ == planned_chunk(patent_id@, text@, k),
        decreases texts.len() - i,
    {
        let mut id = chars_of(patent_id);
        id.push('-');
        extend_chars(&mut id, &decimal_chars(i));
        assert(id@ == chunk_id_of(patent_id@, i as nat));
        let chunk = Chunk {
            patent_id: string_of(&id_chars),
            chunk_id: string_of(&id),
            text: texts[i].clone(),
            embedding: None,
        };
        assert(chunk@ == planned_chunk(patent_id@, text@, i as int));
        chunks.push(chunk);
        i += 1;
    }
    chunks
}

} // verus!
