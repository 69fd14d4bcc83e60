//! Splitting text into overlapping windows of words.

use vstd::prelude::*;
use crate::text::{
    chars_of, is_word, join_range, join_words, lemma_split_join, lemma_words_are_words,
    split_words, string_of, views, words_of,
};

verus! {

/// How many words the window advances by: the chunk size less the overlap,
/// and never less than one word.
pub open spec fn stride(chunk_size: int, overlap: int) -> int {
    if chunk_size - overlap >= 1 {
        chunk_size - overlap
    } else {
        1
    }
}

/// `a / b` rounded up, for a positive `b`.
pub open spec fn ceil_div(a: int, b: int) -> int {
    (a + b - 1) / b
}

/// The number of windows laid over `n` words.
pub open spec fn chunk_count(n: int, chunk_size: int, overlap: int) -> int {
    if n <= 0 {
        0
    } else if n <= chunk_size {
        1
    } else {
        ceil_div(n - chunk_size, stride(chunk_size, overlap)) + 1
    }
}

/// The index of the first word of window `k`.
pub open spec fn window_start(k: int, chunk_size: int, overlap: int) -> int {
    k * stride(chunk_size, overlap)
}

/// The index one past the last word of window `k` over `n` words: the window
/// is cut where the words end.
pub open spec fn window_end(n: int, k: int, chunk_size: int, overlap: int) -> int {
    let full = window_start(k, chunk_size, overlap) + chunk_size;
    if full <= n {
        full
    } else {
        n
    }
}

/// The words of window `k`.
pub open spec fn window(words: Seq<Seq<char>>, k: int, chunk_size: int, overlap: int) -> Seq<
    Seq<char>,
> {
    words.subrange(
        window_start(k, chunk_size, overlap),
        window_end(words.len() as int, k, chunk_size, overlap),
    )
}

/// The text of window `k` of `text`: its words with single spaces between.
pub open spec fn chunk_at(text: Seq<char>, k: int, chunk_size: int, overlap: int) -> Seq<char> {
    join_words(window(words_of(text), k, chunk_size, overlap))
}

/// A number above `(k - 1) * b` and not above `k * b` divides to `k` when
/// rounded up.
proof fn lemma_ceil_div_between(a: int, b: int, k: int)
    requires
        b > 0,
        (k - 1) * b < a <= k * b,
    ensures
        ceil_div(a, b) == k,
{
    assert((a + b - 1) / b == k) by (nonlinear_arith)
        requires
            b > 0,
            (k - 1) * b < a <= k * b,
    ;
}

/// Each window starts one stride after the one before it, and none
/// before the first word.
proof fn lemma_window_start_step(k: int, chunk_size: int, overlap: int)
    ensures
        window_start(k + 1, chunk_size, overlap) == window_start(k, chunk_size, overlap) + stride(
            chunk_size,
            overlap,
        ),
        k >= 0 ==> window_start(k, chunk_size, overlap) >= 0,
{
    let s = stride(chunk_size, overlap);
    assert((k + 1) * s == k * s + s) by (nonlinear_arith);
    assert(k >= 0 ==> k * s >= 0) by (nonlinear_arith)
        requires
            s >= 1,
    ;
}

/// With an overlap below the chunk size and more words than the overlap,
/// the number of windows is `(n - overlap) / (chunk_size - overlap)`, rounded
/// up.
pub proof fn lemma_chunk_count_formula(n: int, chunk_size: int, overlap: int)
    requires
        0 <= overlap < chunk_size,
        n > overlap,
    ensures
        chunk_count(n, chunk_size, overlap) == ceil_div(n - overlap, chunk_size - overlap),
{
    let s = chunk_size - overlap;
    if n <= chunk_size {
        assert((n - overlap + s - 1) / s == 1) by (nonlinear_arith)
            requires
                0 < n - overlap <= s,
        ;
    } else {
        assert((n - chunk_size + s - 1) / s + 1 == (n - overlap + s - 1) / s) by (nonlinear_arith)
            requires
                s > 0,
                n - overlap == n - chunk_size + s,
        ;
    }
}

/// No words give no windows, and any words give at least one.
pub proof fn lemma_chunk_count_zero(n: int, chunk_size: int, overlap: int)
    requires
        n >= 0,
        chunk_size >= 1,
    ensures
        chunk_count(n, chunk_size, overlap) == 0 <==> n == 0,
        chunk_count(n, chunk_size, overlap) >= 0,
{
    let s = stride(chunk_size, overlap);
    if n > chunk_size {
        assert((n - chunk_size + s - 1) / s >= 0) by (nonlinear_arith)
            requires
                s >= 1,
                n - chunk_size > 0,
        ;
    }
}

/// Where every window lies: each starts inside the words, each but the last
/// ends before the last word and so is full, and the last ends with the last
/// word.
pub proof fn lemma_window_bounds(n: int, k: int, chunk_size: int, overlap: int)
    requires
        chunk_size >= 1,
        overlap >= 0,
        0 <= k < chunk_count(n, chunk_size, overlap),
    ensures
        0 <= window_start(k, chunk_size, overlap) < n,
        k < chunk_count(n, chunk_size, overlap) - 1 ==> window_start(k, chunk_size, overlap)
            + chunk_size < n,
        k == chunk_count(n, chunk_size, overlap) - 1 ==> window_end(n, k, chunk_size, overlap)
            == n,
{
    let s = stride(chunk_size, overlap);
    if n <= chunk_size {
        assert(k == 0);
        assert(0 * s == 0);
    } else {
        let q = (n - chunk_size + s - 1) / s;
        assert(q * s <= n - chunk_size + s - 1 && n - chunk_size <= q * s) by (nonlinear_arith)
            requires
                s >= 1,
                q == (n - chunk_size + s - 1) / s,
        ;
        assert(0 <= k * s && (k < q ==> k * s + s <= q * s) && (k == q ==> k * s == q * s))
            by (nonlinear_arith)
            requires
                s >= 1,
                0 <= k <= q,
        ;
    }
}

/// Every window but the last holds exactly `chunk_size` words; the last
/// holds at least one and at most `chunk_size`.
pub proof fn lemma_window_len(words: Seq<Seq<char>>, k: int, chunk_size: int, overlap: int)
    requires
        chunk_size >= 1,
        overlap >= 0,
        0 <= k < chunk_count(words.len() as int, chunk_size, overlap),
    ensures
        1 <= window(words, k, chunk_size, overlap).len() <= chunk_size,
        k < chunk_count(words.len() as int, chunk_size, overlap) - 1 ==> window(
            words,
            k,
            chunk_size,
            overlap,
        ).len() == chunk_size,
{
    lemma_window_bounds(words.len() as int, k, chunk_size, overlap);
}

/// With an overlap below the chunk size, a window and the one after it share
/// exactly `overlap` words: the last `overlap` words of the first are the
/// first `overlap` words of the second.
pub proof fn lemma_window_overlap(words: Seq<Seq<char>>, k: int, chunk_size: int, overlap: int)
    requires
        0 <= overlap < chunk_size,
        0 <= k,
        k + 1 < chunk_count(words.len() as int, chunk_size, overlap),
    ensures
        window(words, k, chunk_size, overlap).len() == chunk_size,
        window(words, k + 1, chunk_size, overlap).len() >= overlap,
        window(words, k, chunk_size, overlap).skip(chunk_size - overlap) == window(
            words,
            k + 1,
            chunk_size,
            overlap,
        ).take(overlap),
        window_start(k + 1, chunk_size, overlap) == window_start(k, chunk_size, overlap)
            + chunk_size - overlap,
{
    let n = words.len() as int;
    lemma_window_bounds(n, k, chunk_size, overlap);
    lemma_window_bounds(n, k + 1, chunk_size, overlap);
    lemma_window_start_step(k, chunk_size, overlap);
    assert(window(words, k, chunk_size, overlap).skip(chunk_size - overlap) =~= window(
        words,
        k + 1,
        chunk_size,
        overlap,
    ).take(overlap));
}

/// The words of a chunk's text are the words of its window: splitting a
/// chunk gives back exactly the words it was made of.
pub proof fn lemma_chunk_words(text: Seq<char>, k: int, chunk_size: int, overlap: int)
    requires
        chunk_size >= 1,
        overlap >= 0,
        0 <= k < chunk_count(words_of(text).len() as int, chunk_size, overlap),
    ensures
        words_of(chunk_at(text, k, chunk_size, overlap)) == window(
            words_of(text),
            k,
            chunk_size,
            overlap,
        ),
{
    let words = words_of(text);
    let w = window(words, k, chunk_size, overlap);
    lemma_window_bounds(words.len() as int, k, chunk_size, overlap);
    lemma_words_are_words(text);
    assert forall|i: int| 0 <= i < w.len() implies is_word(#[trigger] w[i]) by {
        assert(w[i] == words[window_start(k, chunk_size, overlap) + i]);
    }
    lemma_split_join(w);
}

/// Lays windows of `chunk_size` words over `words`, each starting
/// `stride(chunk_size, overlap)` words after the one before, and returns the
/// text of each window. The window that reaches the last word is the last
/// one.
pub fn chunk_words(words: &Vec<Vec<char>>, chunk_size: usize, overlap: usize) -> (chunks: Vec<
    String,
>)
    requires
        chunk_size >= 1,
    ensures
        chunks@.len() == chunk_count(words@.len() as int, chunk_size as int, overlap as int),
        forall|k: int|
            0 <= k < chunks@.len() ==> (#[trigger] chunks@[k])@ == join_words(
                window(views(words@), k, chunk_size as int, overlap as int),
            ),
{
    let n = words.len();
    let step: usize = if chunk_size > overlap {
        chunk_size - overlap
    } else {
        1
    };
    let ghost c = chunk_size as int;
    let ghost o = overlap as int;
    let ghost all = views(words@);
    let mut chunks: Vec<String> = Vec::new();
    let mut start: usize = 0;
    let mut finished = n == 0;
    while !finished
        invariant
            n == words.len(),
            all == views(words@),
            all.len() == n,
            c == chunk_size >= 1,
            o == overlap,
            step == stride(c, o),
            !finished ==> start == window_start(chunks@.len() as int, c, o),
            !finished ==> start < n,
            !finished && chunks@.len() > 0 ==> window_start(chunks@.len() - 1, c, o) + c < n,
            finished ==> chunks@.len() == chunk_count(n as int, c, o),
            forall|k: int|
                0 <= k < chunks@.len() ==> (#[trigger] chunks@[k])@ == join_words(
                    window(all, k, c, o),
                ),
        decreases (if finished { 0 } else { 1 + n - start }),
    {
        let ghost k = chunks@.len() as int;
        let end: usize = if chunk_size >= n - start {
            n
        } else {
            start + chunk_size
        };
        assert(end == window_end(n as int, k, c, o));
        let buf = join_range(words, start, end);
        let chunk = string_of(&buf);
        chunks.push(chunk);
        proof {
            lemma_window_start_step(k, c, o);
            lemma_window_start_step(k - 1, c, o);
        }
        if end == n {
            finished = true;
            proof {
                if n <= c {
                    if k > 0 {
                        lemma_window_start_step(k - 1, c, o);
                    }
                    assert(k == 0);
                } else {
                    lemma_ceil_div_between(n - c, step as int, k);
                }
            }
        } else {
            start = start + step;
        }
    }
    chunks
}

/// Splits `text` at white space into words and returns the text of each
/// window of `chunk_size` words, in order. Consecutive windows start
/// `stride(chunk_size, overlap)` words apart; the last window ends with the
/// last word.
pub fn chunk_text(text: &str, chunk_size: usize, overlap: usize) -> (chunks: Vec<String>)
    requires
        chunk_size >= 1,
    ensures
        chunks@.len() == chunk_count(
            words_of(text@).len() as int,
            chunk_size as int,
            overlap as int,
        ),
        forall|k: int|
            0 <= k < chunks@.len() ==> (#[trigger] chunks@[k])@ == chunk_at(
                text@,
                k,
                chunk_size as int,
                overlap as int,
            ),
        chunks@.len() == 0 <==> words_of(text@).len() == 0,
        text@.len() == 0 ==> chunks@.len() == 0,
{
    let chars = chars_of(text);
    let words = split_words(&chars);
    proof {
        lemma_chunk_count_zero(words_of(text@).len() as int, chunk_size as int, overlap as int);
    }
    chunk_words(&words, chunk_size, overlap)
}

} // verus!
