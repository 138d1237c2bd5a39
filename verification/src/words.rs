//! Word counting: a word is a maximal run of bytes that are not separators,
//! where the separators are space, tab and line-feed. A carriage return is
//! ordinary content, not a separator.
use vstd::prelude::*;

verus! {

/// True of the bytes that separate words: space, tab and line-feed.
pub open spec fn is_sep(b: u8) -> bool {
    b == 32 || b == 9 || b == 10
}

/// Number of words in `s` when the byte just before `s` was a separator
/// (or `s` is at the start of the input) iff `!in_word`.
pub open spec fn words_after(s: Seq<u8>, in_word: bool) -> nat
    decreases s.len(),
{
    if s.len() == 0 {
        0
    } else {
        (if !is_sep(s[0]) && !in_word {
            1nat
        } else {
            0nat
        }) + words_after(s.drop_first(), !is_sep(s[0]))
    }
}

/// Number of maximal separator-delimited words in `s`.
pub open spec fn word_count(s: Seq<u8>) -> nat {
    words_after(s, false)
}

/// Whether a scan of `s` that started in word-state `in_word` ends inside a word.
pub open spec fn ends_in_word(s: Seq<u8>, in_word: bool) -> bool {
    if s.len() == 0 {
        in_word
    } else {
        !is_sep(s.last())
    }
}

pub proof fn lemma_words_after_le_len(s: Seq<u8>, in_word: bool)
    ensures
        words_after(s, in_word) <= s.len(),
    decreases s.len(),
{
    if s.len() > 0 {
        lemma_words_after_le_len(s.drop_first(), !is_sep(s[0]));
    }
}

/// Word counting distributes over concatenation: the right part is counted
/// from the word-state in which the left part ends.
pub proof fn lemma_words_after_concat(s1: Seq<u8>, s2: Seq<u8>, in_word: bool)
    ensures
        words_after(s1 + s2, in_word) == words_after(s1, in_word) + words_after(
            s2,
            ends_in_word(s1, in_word),
        ),
    decreases s1.len(),
{
    if s1.len() == 0 {
        assert(s1 + s2 =~= s2);
    } else {
        assert((s1 + s2)[0] == s1[0]);
        assert((s1 + s2).drop_first() =~= s1.drop_first() + s2);
        lemma_words_after_concat(s1.drop_first(), s2, !is_sep(s1[0]));
        if s1.len() == 1 {
            assert(ends_in_word(s1.drop_first(), !is_sep(s1[0])) == ends_in_word(s1, in_word));
        } else {
            assert(s1.drop_first().last() == s1.last());
        }
    }
}

/// True when every byte of `p` is a separator.
pub open spec fn all_seps(p: Seq<u8>) -> bool {
    forall|i: int| 0 <= i < p.len() ==> is_sep(p[i])
}

/// A run of separators holds no word, whatever precedes it.
pub proof fn lemma_words_after_all_seps(p: Seq<u8>, in_word: bool)
    requires
        all_seps(p),
    ensures
        words_after(p, in_word) == 0,
    decreases p.len(),
{
    if p.len() > 0 {
        assert(is_sep(p[0]));
        assert(all_seps(p.drop_first()));
        lemma_words_after_all_seps(p.drop_first(), !is_sep(p[0]));
    }
}

/// The word count is blind to leading and trailing whitespace: separator
/// runs of any width around the content change nothing.
pub proof fn lemma_word_count_outer_whitespace(p: Seq<u8>, s: Seq<u8>, q: Seq<u8>)
    requires
        all_seps(p),
        all_seps(q),
    ensures
        word_count(p + s + q) == word_count(s),
{
    lemma_words_after_concat(p + s, q, false);
    lemma_words_after_concat(p, s, false);
    lemma_words_after_all_seps(q, ends_in_word(p + s, false));
    lemma_words_after_all_seps(p, false);
    if p.len() > 0 {
        assert(is_sep(p.last()));
        assert(!ends_in_word(p, false));
    }
}

/// The word count is blind to the width of an interior separator run: any
/// non-empty run of separators between two parts splits their words exactly
/// as any other non-empty run does.
pub proof fn lemma_word_count_separator_run_width(s1: Seq<u8>, p: Seq<u8>, q: Seq<u8>, s2: Seq<u8>)
    requires
        all_seps(p),
        all_seps(q),
        p.len() > 0,
        q.len() > 0,
    ensures
        word_count(s1 + (p + s2)) == word_count(s1 + (q + s2)),
{
    let e = ends_in_word(s1, false);
    lemma_words_after_concat(s1, p + s2, false);
    lemma_words_after_concat(s1, q + s2, false);
    lemma_words_after_concat(p, s2, e);
    lemma_words_after_concat(q, s2, e);
    lemma_words_after_all_seps(p, e);
    lemma_words_after_all_seps(q, e);
    assert(is_sep(p.last()));
    assert(is_sep(q.last()));
    assert(!ends_in_word(p, e));
    assert(!ends_in_word(q, e));
}

/// Count the words of `input` in one pass over its bytes.
pub fn count_words(input: &[u8]) -> (n: usize)
    ensures
        n == word_count(input@),
{
    let len = input.len();
    let mut n: usize = 0;
    let mut in_word = false;
    let mut i: usize = 0;
    proof {
        lemma_words_after_le_len(input@, false);
        assert(input@.skip(0) =~= input@);
    }
    while i < len
        invariant
            i <= len,
            len == input@.len(),
            word_count(input@) == n + words_after(input@.skip(i as int), in_word),
            word_count(input@) <= input@.len(),
            n <= input@.len(),
        decreases len - i,
    {
        proof {
            assert(input@.skip(i as int)[0] == input@[i as int]);
            assert(input@.skip(i as int).drop_first() =~= input@.skip(i as int + 1));
            lemma_words_after_le_len(input@.skip(i as int + 1), !is_sep(input@[i as int]));
        }
        let b = input[i];
        let sep = b == 32 || b == 9 || b == 10;
        if !sep && !in_word {
            n = n + 1;
        }
        in_word = !sep;
        i = i + 1;
    }
    proof {
        assert(input@.skip(len as int) =~= Seq::<u8>::empty());
    }
    n
}

} // verus!
