//! The grounding prompt: the question and the retrieved passages, each
//! passage under the citation number of its rank.

use vstd::prelude::*;
use crate::search::{hit_models, HitModel, SearchResult};
use crate::text::{chars_of, decimal, decimal_chars, extend_chars, string_of};

verus! {

/// The index of the last `-` in `s`, or -1 where it holds none.
pub open spec fn last_dash(s: Seq<char>) -> int
    decreases s.len(),
{
    if s.len() == 0 {
        -1
    } else if s.last() == '-' {
        s.len() - 1
    } else {
        last_dash(s.drop_last())
    }
}

/// What follows the last `-` in `s`; all of `s` where it holds none.
pub open spec fn last_segment(s: Seq<char>) -> Seq<char> {
    s.skip(last_dash(s) + 1)
}

/// The instruction that opens every prompt, up to the question.
pub open spec fn preamble() -> Seq<char> {
    "You are a patent expert. Answer using ONLY the context. Cite each point like [1], [2].\n\nQuestion: "@
}

/// What stands between the question and the passages.
pub open spec fn context_heading() -> Seq<char> {
    "\n\nContext:\n"@
}

/// The part of a prompt before the passages.
pub open spec fn prompt_header(question: Seq<char>) -> Seq<char> {
    preamble() + question + context_heading()
}

/// The passage `hit` under citation number `rank`: the number in square
/// brackets, the document and the chunk's place in it in round brackets, a
/// colon, the passage, and an empty line.
pub open spec fn context_block(rank: nat, hit: HitModel) -> Seq<char> {
    seq!['['] + decimal(rank) + "] ("@ + hit.patent_id + seq!['-'] + last_segment(hit.chunk_id)
        + "): "@ + hit.snippet + "\n\n"@
}

/// The passages of `hits` one after the other, the first under number 1.
pub open spec fn context_blocks(hits: Seq<HitModel>) -> Seq<char>
    decreases hits.len(),
{
    if hits.len() == 0 {
        Seq::empty()
    } else {
        context_blocks(hits.drop_last()) + context_block(hits.len() as nat, hits.last())
    }
}

/// The whole prompt for `question` over `hits`.
pub open spec fn prompt_text(question: Seq<char>, hits: Seq<HitModel>) -> Seq<char> {
    prompt_header(question) + context_blocks(hits)
}

/// Where in the prompt the passage of rank `i + 1` starts.
pub open spec fn block_offset(question: Seq<char>, hits: Seq<HitModel>, i: int) -> int {
    (prompt_header(question).len() + context_blocks(hits.take(i)).len()) as int
}

/// A position that holds `-` and has no `-` after it is the last one.
pub proof fn lemma_last_dash_is(s: Seq<char>, p: int)
    requires
        -1 <= p < s.len(),
        p >= 0 ==> s[p] == '-',
        forall|k: int| p < k < s.len() ==> #[trigger] s[k] != '-',
    ensures
        last_dash(s) == p,
    decreases s.len(),
{
    if s.len() > 0 && s.last() != '-' {
        lemma_last_dash_is(s.drop_last(), p);
    }
}

/// The passages of the first `n` results open the passages of all.
pub proof fn lemma_blocks_prefix(hits: Seq<HitModel>, n: int)
    requires
        0 <= n <= hits.len(),
    ensures
        context_blocks(hits.take(n)).len() <= context_blocks(hits).len(),
        context_blocks(hits).take(context_blocks(hits.take(n)).len() as int) == context_blocks(
            hits.take(n),
        ),
    decreases hits.len(),
{
    if n == hits.len() {
        assert(hits.take(n) == hits);
        assert(context_blocks(hits).take(context_blocks(hits).len() as int) == context_blocks(
            hits,
        ));
    } else {
        let init = hits.drop_last();
        lemma_blocks_prefix(init, n);
        assert(init.take(n) == hits.take(n));
        let m = context_blocks(hits.take(n)).len() as int;
        assert(context_blocks(hits).take(m) == context_blocks(init).take(m));
    }
}

/// In a prompt, the passage under citation number `i + 1` is the one of
/// result `i`: the text between the start of that passage and the start of
/// the next (or the end of the prompt) is the block of `hits[i]` under
/// number `i + 1`.
pub proof fn lemma_citation_alignment(question: Seq<char>, hits: Seq<HitModel>, i: int)
    requires
        0 <= i < hits.len(),
    ensures
        0 <= block_offset(question, hits, i) <= block_offset(question, hits, i + 1)
            <= prompt_text(question, hits).len(),
        prompt_text(question, hits).subrange(
            block_offset(question, hits, i),
            block_offset(question, hits, i + 1),
        ) == context_block((i + 1) as nat, hits[i]),
        block_offset(question, hits, hits.len() as int) == prompt_text(question, hits).len(),
{
    let head = prompt_header(question);
    let upto = hits.take(i + 1);
    lemma_blocks_prefix(hits, i + 1);
    assert(upto.drop_last() == hits.take(i));
    assert(upto.last() == hits[i]);
    let before = context_blocks(hits.take(i));
    let block = context_block((i + 1) as nat, hits[i]);
    assert(context_blocks(upto) == before + block);
    let all = context_blocks(hits);
    assert(hits.take(hits.len() as int) == hits);
    let h = head.len() as int;
    let b = before.len() as int;
    let e = b + block.len();
    assert(prompt_text(question, hits).subrange(h + b, h + e) == all.subrange(b, e));
    assert(all.subrange(b, e) == all.take(e).skip(b));
    assert((before + block).skip(b) == block);
}

/// What follows the last `-` in `s`.
pub fn last_segment_chars(s: &Vec<char>) -> (tail: Vec<char>)
    ensures
        tail@ == last_segment(s@),
{
    let mut p: usize = s.len();
    while p > 0 && s[p - 1] != '-'
        invariant
            p <= s.len(),
            forall|k: int| p <= k < s.len() ==> #[trigger] s@[k] != '-',
        decreases p,
    {
        p -= 1;
    }
    proof {
        lemma_last_dash_is(s@, p - 1);
    }
    let mut tail: Vec<char> = Vec::new();
    let mut i: usize = p;
    while i < s.len()
        invariant
            p <= i <= s.len(),
            tail@ == s@.subrange(p as int, i as int),
        decreases s.len() - i,
    {
        tail.push(s[i]);
        assert(s@.subrange(p as int, i + 1) == s@.subrange(p as int, i as int).push(s@[i as int]));
        i += 1;
    }
    assert(s@.subrange(p as int, s@.len() as int) == s@.skip(p as int));
    tail
}

/// Appends the passage `hit` under citation number `rank` to `buf`.
fn push_block(buf: &mut Vec<char>, rank: usize, hit: &SearchResult)
    ensures
        final(buf)@ == old(buf)@ + context_block(rank as nat, hit@),
{
    let ghost start = buf@;
    buf.push('[');
    extend_chars(buf, &decimal_chars(rank));
    extend_chars(buf, &chars_of("] ("));
    extend_chars(buf, &chars_of(hit.patent_id.as_str()));
    buf.push('-');
    let id = chars_of(hit.chunk_id.as_str());
    extend_chars(buf, &last_segment_chars(&id));
    extend_chars(buf, &chars_of("): "));
    extend_chars(buf, &chars_of(hit.snippet.as_str()));
    extend_chars(buf, &chars_of("\n\n"));
    assert(buf@ == start + context_block(rank as nat, hit@));
}

/// Writes the prompt for `question` over `results`: the instruction, the
/// question, and one passage per result in the order of the results, result
/// `i` under citation number `i + 1`.
pub fn build_prompt(question: &str, results: &Vec<SearchResult>) -> (prompt: String)
    ensures
        prompt@ == prompt_text(question@, hit_models(results@)),
{
    let mut buf = chars_of(
        "You are a patent expert. Answer using ONLY the context. Cite each point like [1], [2].\n\nQuestion: ",
    );
    extend_chars(&mut buf, &chars_of(question));
    extend_chars(&mut buf, &chars_of("\n\nContext:\n"));
    let ghost hits = hit_models(results@);
    let ghost head = prompt_header(question@);
    let mut i: usize = 0;
    assert(hits.take(0).len() == 0);
    assert(head + context_blocks(hits.take(0)) == head);
    while i < results.len()
        invariant
            i <= results.len(),
            hits == hit_models(results@),
            head == prompt_header(question@),
            buf@ == head + context_blocks(hits.take(i as int)),
        decreases results.len() - i,
    {
        proof {
            assert(hits.take(i + 1).drop_last() == hits.take(i as int));
            assert(hits.take(i + 1).last() == results@[i as int]@);
            assert(head + (context_blocks(hits.take(i as int)) + context_block(
                (i + 1) as nat,
                results@[i as int]@,
            )) == (head + context_blocks(hits.take(i as int))) + context_block(
                (i + 1) as nat,
                results@[i as int]@,
            ));
        }
        push_block(&mut buf, i + 1, &results[i]);
        i += 1;
    }
    assert(hits.take(hits.len() as int) == hits);
    string_of(&buf)
}

} // verus!
