//! Line counting: every line-feed byte ends a line, and a non-empty stream
//! whose last byte is not a line-feed still has one final, unterminated line.
use vstd::prelude::*;

verus! {

/// The line-feed byte.
pub const LINE_FEED: u8 = 10;

/// Number of line-feed bytes in `s`.
pub open spec fn newline_count(s: Seq<u8>) -> nat
    decreases s.len(),
{
    if s.len() == 0 {
        0
    } else {
        newline_count(s.drop_last()) + if s.last() == LINE_FEED {
            1nat
        } else {
            0nat
        }
    }
}

/// Number of lines in `s`: one per line-feed, plus one for a final,
/// unterminated line when `s` is non-empty and does not end in a line-feed.
pub open spec fn line_count(s: Seq<u8>) -> nat {
    newline_count(s) + if s.len() > 0 && s.last() != LINE_FEED {
        1nat
    } else {
        0nat
    }
}

pub proof fn lemma_newline_count_le_len(s: Seq<u8>)
    ensures
        newline_count(s) <= s.len(),
    decreases s.len(),
{
    if s.len() > 0 {
        lemma_newline_count_le_len(s.drop_last());
    }
}

/// An input that ends without a line terminator but holds at least one byte
/// counts its final, partial line: the count is one more than the number of
/// terminators, exactly as if the missing terminator were appended.
pub proof fn lemma_unterminated_final_line_counted(s: Seq<u8>)
    requires
        s.len() > 0,
        s.last() != LINE_FEED,
    ensures
        line_count(s) == newline_count(s) + 1,
        line_count(s) == line_count(s.push(LINE_FEED)),
{
    assert(s.push(LINE_FEED).drop_last() =~= s);
}

/// Count the lines of `input` in one pass over its bytes.
pub fn count_lines(input: &[u8]) -> (n: usize)
    ensures
        n == line_count(input@),
{
    let len = input.len();
    let mut nl: usize = 0;
    let mut i: usize = 0;
    while i < len
        invariant
            i <= len,
            len == input@.len(),
            nl == newline_count(input@.take(i as int)),
            nl <= i,
        decreases len - i,
    {
        proof {
            assert(input@.take(i as int + 1).drop_last() =~= input@.take(i as int));
            assert(input@.take(i as int + 1).last() == input@[i as int]);
        }
        if input[i] == LINE_FEED {
            nl = nl + 1;
        }
        i = i + 1;
    }
    proof {
        assert(input@.take(len as int) =~= input@);
    }
    if len > 0 && input[len - 1] != LINE_FEED {
        proof {
            lemma_newline_count_le_len(input@.drop_last());
            assert(input@.drop_last().push(input@.last()) =~= input@);
        }
        nl + 1
    } else {
        nl
    }
}

} // verus!
