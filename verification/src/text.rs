//! Character-level helpers shared by the rest of the library.

use vstd::prelude::*;

verus! {

/// Unicode white space, as listed by the `White_Space` property.
pub open spec fn is_space(c: char) -> bool {
    let n = c as u32;
    ||| 0x09 <= n <= 0x0D
    ||| n == 0x20
    ||| n == 0x85
    ||| n == 0xA0
    ||| n == 0x1680
    ||| 0x2000 <= n <= 0x200A
    ||| n == 0x2028
    ||| n == 0x2029
    ||| n == 0x202F
    ||| n == 0x205F
    ||| n == 0x3000
}

/// Tests whether `c` is Unicode white space.
pub fn is_space_char(c: char) -> (r: bool)
    ensures
        r == is_space(c),
{
    let n: u32 = c as u32;
    (0x09 <= n && n <= 0x0D) || n == 0x20 || n == 0x85 || n == 0xA0 || n == 0x1680 || (0x2000 <= n
        && n <= 0x200A) || n == 0x2028 || n == 0x2029 || n == 0x202F || n == 0x205F || n == 0x3000
}

/// The characters of `s`, in order.
pub fn chars_of(s: &str) -> (v: Vec<char>)
    ensures
        v@ == s@,
{
    let mut v: Vec<char> = Vec::new();
    for c in it: s.chars()
        invariant
            it.seq() == s@,
            v@ == it.seq().take(it.index() as int),
    {
        v.push(c);
        assert(it.seq().take(it.index() + 1) == it.seq().take(it.index() as int).push(c));
    }
    assert(s@.take(s@.len() as int) == s@);
    v
}

/// `String::push` appends one character to the end of the string and leaves
/// the characters before it as they were.
pub assume_specification[ String::push ](s: &mut String, c: char)
    ensures
        final(s)@ == old(s)@.push(c),
;

/// The string made of the characters of `chars`, in order.
pub fn string_of(chars: &Vec<char>) -> (s: String)
    ensures
        s@ == chars@,
{
    let mut s = String::new();
    let mut i: usize = 0;
    while i < chars.len()
        invariant
            i <= chars.len(),
            s@ == chars@.take(i as int),
        decreases chars.len() - i,
    {
        s.push(chars[i]);
        assert(chars@.take(i + 1) == chars@.take(i as int).push(chars@[i as int]));
        i += 1;
    }
    assert(chars@.take(chars@.len() as int) == chars@);
    s
}

/// Appends the characters of `tail` to `buf`.
pub fn extend_chars(buf: &mut Vec<char>, tail: &Vec<char>)
    ensures
        final(buf)@ == old(buf)@ + tail@,
{
    let mut i: usize = 0;
    while i < tail.len()
        invariant
            i <= tail.len(),
            buf@ == old(buf)@ + tail@.take(i as int),
        decreases tail.len() - i,
    {
        buf.push(tail[i]);
        assert(tail@.take(i + 1) == tail@.take(i as int).push(tail@[i as int]));
        i += 1;
    }
    assert(tail@.take(tail@.len() as int) == tail@);
}

/// The character of a decimal digit.
pub open spec fn digit_char(d: nat) -> char {
    (48 + d) as u8 as char
}

/// `n` in decimal, without leading zeros.
pub open spec fn decimal(n: nat) -> Seq<char>
    decreases n,
{
    if n < 10 {
        seq![digit_char(n)]
    } else {
        decimal(n / 10).push(digit_char(n % 10))
    }
}

/// Whether `c` is one of the ten decimal digits.
pub open spec fn is_digit(c: char) -> bool {
    48 <= c as u32 <= 57
}

/// The number that a string of decimal digits stands for.
pub open spec fn decimal_value(s: Seq<char>) -> nat
    decreases s.len(),
{
    if s.len() == 0 {
        0
    } else {
        (10 * decimal_value(s.drop_last()) + (s.last() as u32 - 48)) as nat
    }
}

/// Reading back what `decimal` wrote gives the number: different numbers
/// are written differently. What is written is digits only, at least one.
pub proof fn lemma_decimal_value(n: nat)
    ensures
        decimal_value(decimal(n)) == n,
        decimal(n).len() >= 1,
        forall|i: int| 0 <= i < decimal(n).len() ==> is_digit(#[trigger] decimal(n)[i]),
    decreases n,
{
    if n < 10 {
        assert(decimal(n).drop_last().len() == 0);
        assert(decimal_value(decimal(n).drop_last()) == 0);
    } else {
        lemma_decimal_value(n / 10);
        assert(decimal(n).drop_last() == decimal(n / 10));
    }
}

/// The decimal digits of `n`.
pub fn decimal_chars(n: usize) -> (digits: Vec<char>)
    ensures
        digits@ == decimal(n as nat),
    decreases n,
{
    if n < 10 {
        let mut digits: Vec<char> = Vec::new();
        digits.push((48 + n as u8) as char);
        digits
    } else {
        let mut digits = decimal_chars(n / 10);
        digits.push((48 + (n % 10) as u8) as char);
        digits
    }
}

/// The length of the longest prefix of `s` that holds no white space.
pub open spec fn word_len(s: Seq<char>) -> nat
    decreases s.len(),
{
    if s.len() == 0 || is_space(s[0]) {
        0
    } else {
        1 + word_len(s.skip(1))
    }
}

/// The maximal runs of characters of `s` that hold no white space, in order.
pub open spec fn words_of(s: Seq<char>) -> Seq<Seq<char>>
    decreases s.len(),
    via words_of_terminates
{
    if s.len() == 0 {
        Seq::empty()
    } else if is_space(s[0]) {
        words_of(s.skip(1))
    } else {
        let n = word_len(s) as int;
        seq![s.take(n)] + words_of(s.skip(n))
    }
}

#[via_fn]
proof fn words_of_terminates(s: Seq<char>) {
    lemma_word_len_bound(s);
}

/// `words` written one after the other with a single space between
/// neighbours.
pub open spec fn join_words(words: Seq<Seq<char>>) -> Seq<char>
    decreases words.len(),
{
    if words.len() == 0 {
        Seq::empty()
    } else if words.len() == 1 {
        words[0]
    } else {
        join_words(words.drop_last()) + seq![' '] + words.last()
    }
}

/// The views of a vector of character buffers.
pub open spec fn views(words: Seq<Vec<char>>) -> Seq<Seq<char>> {
    words.map_values(|w: Vec<char>| w@)
}

/// The first word is no longer than the text, and not empty where the
/// text starts with something other than white space.
pub proof fn lemma_word_len_bound(s: Seq<char>)
    ensures
        word_len(s) <= s.len(),
        s.len() > 0 && !is_space(s[0]) ==> word_len(s) >= 1,
    decreases s.len(),
{
    if s.len() > 0 && !is_space(s[0]) {
        lemma_word_len_bound(s.skip(1));
    }
}

/// A prefix free of white space that ends at white space or at the end of
/// `s` is the first word of `s`.
pub proof fn lemma_word_len_is(s: Seq<char>, m: int)
    requires
        0 <= m <= s.len(),
        forall|k: int| 0 <= k < m ==> !is_space(#[trigger] s[k]),
        m == s.len() || is_space(s[m]),
    ensures
        word_len(s) == m,
    decreases m,
{
    if m > 0 {
        let t = s.skip(1);
        assert forall|k: int| 0 <= k < m - 1 implies !is_space(#[trigger] t[k]) by {
            assert(t[k] == s[k + 1]);
        }
        lemma_word_len_is(t, m - 1);
    }
}

/// A word: at least one character, none of them white space.
pub open spec fn is_word(w: Seq<char>) -> bool {
    &&& w.len() > 0
    &&& forall|i: int| 0 <= i < w.len() ==> !is_space(#[trigger] w[i])
}

/// No character of the first word is white space.
proof fn lemma_word_len_prefix(s: Seq<char>, k: int)
    requires
        0 <= k < word_len(s),
    ensures
        k < s.len(),
        !is_space(s[k]),
    decreases k,
{
    if k > 0 {
        lemma_word_len_prefix(s.skip(1), k - 1);
        assert(s.skip(1)[k - 1] == s[k]);
    }
}

/// Every item of `words_of(s)` is a word.
pub proof fn lemma_words_are_words(s: Seq<char>)
    ensures
        forall|i: int| 0 <= i < words_of(s).len() ==> is_word(#[trigger] words_of(s)[i]),
    decreases s.len(),
{
    if s.len() == 0 {
        assert(words_of(s).len() == 0);
    } else if is_space(s[0]) {
        lemma_words_are_words(s.skip(1));
        assert(words_of(s) == words_of(s.skip(1)));
    } else {
        lemma_word_len_bound(s);
        let n = word_len(s) as int;
        lemma_words_are_words(s.skip(n));
        let head = s.take(n);
        assert(is_word(head)) by {
            assert forall|i: int| 0 <= i < head.len() implies !is_space(#[trigger] head[i]) by {
                lemma_word_len_prefix(s, i);
            }
        }
        assert(words_of(s) == seq![head] + words_of(s.skip(n)));
        assert forall|i: int| 0 <= i < words_of(s).len() implies is_word(
            #[trigger] words_of(s)[i],
        ) by {
            if i == 0 {
                assert(words_of(s)[0] == head);
            } else {
                assert(words_of(s)[i] == words_of(s.skip(n))[i - 1]);
            }
        }
    }
}

/// Joining starts with the first word; a space and the joined rest follow
/// where there is a rest.
pub proof fn lemma_join_front(words: Seq<Seq<char>>)
    requires
        words.len() >= 2,
    ensures
        join_words(words) == words[0] + seq![' '] + join_words(words.skip(1)),
    decreases words.len(),
{
    let init = words.drop_last();
    let rest = words.skip(1);
    if words.len() == 2 {
        assert(init.len() == 1 && rest.len() == 1);
        assert(join_words(init) == words[0]);
        assert(join_words(rest) == words[1]);
    } else {
        lemma_join_front(init);
        assert(init.skip(1) == rest.drop_last());
        assert(init[0] == words[0]);
        assert(rest.last() == words.last());
        assert(join_words(rest) == join_words(rest.drop_last()) + seq![' '] + rest.last());
        assert(join_words(words) == (words[0] + seq![' '] + join_words(init.skip(1))) + seq![' ']
            + words.last());
        assert((words[0] + seq![' '] + join_words(init.skip(1))) + seq![' '] + words.last()
            == words[0] + seq![' '] + (join_words(rest.drop_last()) + seq![' '] + rest.last()));
    }
}

/// Splitting what was joined gives the words back.
pub proof fn lemma_split_join(words: Seq<Seq<char>>)
    requires
        forall|i: int| 0 <= i < words.len() ==> is_word(#[trigger] words[i]),
    ensures
        words_of(join_words(words)) == words,
    decreases words.len(),
{
    if words.len() == 0 {
        assert(words_of(join_words(words)) == words);
    } else {
        let w = words[0];
        assert(is_word(w));
        let m = w.len() as int;
        let joined = join_words(words);
        if words.len() == 1 {
            assert(joined == w);
            lemma_word_len_is(joined, m);
            assert(joined.take(m) == w);
            assert(joined.skip(m).len() == 0);
            assert(words_of(joined.skip(m)) == Seq::<Seq<char>>::empty());
            assert(words_of(joined) == seq![w] + Seq::<Seq<char>>::empty());
            assert(words_of(joined) == words);
        } else {
            let rest = words.skip(1);
            lemma_join_front(words);
            let tail = seq![' '] + join_words(rest);
            assert(joined == w + tail);
            assert(is_space(' '));
            assert(joined[m] == ' ');
            assert forall|k: int| 0 <= k < m implies !is_space(#[trigger] joined[k]) by {
                assert(joined[k] == w[k]);
            }
            lemma_word_len_is(joined, m);
            assert(joined.take(m) == w);
            assert(joined.skip(m) == tail);
            assert(tail.skip(1) == join_words(rest));
            assert(words_of(tail) == words_of(join_words(rest)));
            assert forall|i: int| 0 <= i < rest.len() implies is_word(#[trigger] rest[i]) by {
                assert(rest[i] == words[i + 1]);
            }
            lemma_split_join(rest);
            assert(words_of(joined) == seq![w] + rest);
            assert(seq![w] + rest == words);
        }
    }
}

/// Splits `chars` at white space into its words.
pub fn split_words(chars: &Vec<char>) -> (words: Vec<Vec<char>>)
    ensures
        views(words@) == words_of(chars@),
{
    let mut words: Vec<Vec<char>> = Vec::new();
    let n = chars.len();
    let mut i: usize = 0;
    assert(chars@.skip(0) == chars@);
    assert(views(words@) + words_of(chars@) == words_of(chars@));
    while i < n
        invariant
            n == chars.len(),
            i <= n,
            views(words@) + words_of(chars@.skip(i as int)) == words_of(chars@),
        decreases n - i,
    {
        let ghost rest = chars@.skip(i as int);
        assert(rest[0] == chars@[i as int]);
        if is_space_char(chars[i]) {
            assert(rest.skip(1) == chars@.skip(i + 1));
            i += 1;
        } else {
            let mut word: Vec<char> = Vec::new();
            let mut j: usize = i;
            while j < n && !is_space_char(chars[j])
                invariant
                    n == chars.len(),
                    i <= j <= n,
                    word@ == chars@.subrange(i as int, j as int),
                    forall|k: int| i <= k < j ==> !is_space(#[trigger] chars@[k]),
                decreases n - j,
            {
                word.push(chars[j]);
                assert(chars@.subrange(i as int, j + 1) == chars@.subrange(i as int, j as int).push(
                    chars@[j as int],
                ));
                j += 1;
            }
            proof {
                let m = j - i;
                assert forall|k: int| 0 <= k < m implies !is_space(#[trigger] rest[k]) by {
                    assert(rest[k] == chars@[i + k]);
                }
                lemma_word_len_is(rest, m);
                assert(rest.take(m) == word@);
                assert(rest.skip(m) == chars@.skip(j as int));
                let ghost_old = views(words@);
                assert(views(words@.push(word)) == ghost_old + seq![word@]);
                assert(ghost_old + (seq![rest.take(m)] + words_of(rest.skip(m))) == (ghost_old
                    + seq![word@]) + words_of(chars@.skip(j as int)));
            }
            words.push(word);
            i = j;
        }
    }
    assert(chars@.skip(n as int).len() == 0);
    assert(views(words@) + Seq::<Seq<char>>::empty() == views(words@));
    words
}

/// The words `from..to` of `words`, joined by single spaces.
pub fn join_range(words: &Vec<Vec<char>>, from: usize, to: usize) -> (buf: Vec<char>)
    requires
        from <= to <= words.len(),
    ensures
        buf@ == join_words(views(words@).subrange(from as int, to as int)),
{
    let mut buf: Vec<char> = Vec::new();
    let mut j: usize = from;
    let ghost all = views(words@);
    while j < to
        invariant
            from <= j <= to <= words.len(),
            all == views(words@),
            buf@ == join_words(all.subrange(from as int, j as int)),
        decreases to - j,
    {
        let ghost before = all.subrange(from as int, j as int);
        let ghost after = all.subrange(from as int, j + 1);
        assert(after.drop_last() == before);
        assert(after.last() == words@[j as int]@);
        if j > from {
            buf.push(' ');
            assert(buf@ == join_words(before) + seq![' ']);
        } else {
            assert(after.len() == 1);
        }
        let word = &words[j];
        let mut i: usize = 0;
        let ghost base = buf@;
        while i < word.len()
            invariant
                i <= word.len(),
                buf@ == base + word@.take(i as int),
            decreases word.len() - i,
        {
            buf.push(word[i]);
            assert(word@.take(i + 1) == word@.take(i as int).push(word@[i as int]));
            i += 1;
        }
        assert(word@.take(word@.len() as int) == word@);
        j += 1;
    }
    buf
}

/// The words of `text` with single spaces between them: white space at
/// either end is dropped, and every run of white space inside becomes one
/// space.
pub fn normalize_whitespace(text: &Vec<char>) -> (out: Vec<char>)
    ensures
        out@ == join_words(words_of(text@)),
{
    let words = split_words(text);
    assert(views(words@).subrange(0, words@.len() as int) == views(words@));
    join_range(&words, 0, words.len())
}

} // verus!
