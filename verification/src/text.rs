//! Line and column arithmetic on text.
//!
//! A position in a text is a pair of a line (the number of line feeds before
//! it) and a column (the number of characters since the last line feed).
//! Both are counted in `char`s.

use vstd::prelude::*;

verus! {

/// The line feed character, the only line terminator this crate counts.
pub open spec fn is_newline(c: char) -> bool {
    c == '\n'
}

/// Number of line feeds in `s`.
pub open spec fn newline_count(s: Seq<char>) -> nat
    decreases s.len(),
{
    if s.len() == 0 {
        0
    } else {
        newline_count(s.drop_last()) + if is_newline(s.last()) {
            1nat
        } else {
            0nat
        }
    }
}

/// Number of characters that follow the last line feed of `s`; the length of
/// `s` where it has none. This is the column at which text appended to `s`
/// starts, when `s` itself starts at column 0.
pub open spec fn tail_len(s: Seq<char>) -> nat
    decreases s.len(),
{
    if s.len() == 0 {
        0
    } else if is_newline(s.last()) {
        0
    } else {
        tail_len(s.drop_last()) + 1
    }
}

/// Neither count exceeds the length of the text.
pub proof fn lemma_counts_bounded(s: Seq<char>)
    ensures
        newline_count(s) <= s.len(),
        tail_len(s) <= s.len(),
        newline_count(s) == 0 ==> tail_len(s) == s.len(),
    decreases s.len(),
{
    if s.len() > 0 {
        lemma_counts_bounded(s.drop_last());
    }
}

/// Line feeds add up over concatenation.
pub proof fn lemma_newline_count_concat(a: Seq<char>, b: Seq<char>)
    ensures
        newline_count(a + b) == newline_count(a) + newline_count(b),
    decreases b.len(),
{
    if b.len() > 0 {
        assert((a + b).drop_last() =~= a + b.drop_last());
        lemma_newline_count_concat(a, b.drop_last());
    }
}

/// The column after a concatenation: the second part decides it alone when
/// it holds a line feed, and continues the first part's last line otherwise.
pub proof fn lemma_tail_len_concat(a: Seq<char>, b: Seq<char>)
    ensures
        tail_len(a + b) == if newline_count(b) == 0 {
            tail_len(a) + b.len()
        } else {
            tail_len(b)
        },
    decreases b.len(),
{
    if b.len() > 0 {
        assert((a + b).drop_last() =~= a + b.drop_last());
        lemma_tail_len_concat(a, b.drop_last());
        lemma_counts_bounded(b.drop_last());
    }
}

/// What a scan of a text yields: its length, its line feeds, and the length
/// of its last line, all in characters.
#[derive(Clone, Copy, Debug, PartialEq, Eq)]
pub struct TextExtent {
    pub chars: usize,
    pub newlines: usize,
    pub tail: usize,
}

/// Scans `s` once and returns its extent.
pub fn measure(s: &str) -> (e: TextExtent)
    ensures
        e.chars == s@.len(),
        e.newlines == newline_count(s@),
        e.tail == tail_len(s@),
{
    let total = s.unicode_len();
    let mut newlines: usize = 0;
    let mut tail: usize = 0;
    for c in it: s.chars()
        invariant
            total == s@.len(),
            it.seq() == s@,
            newlines == newline_count(s@.take(it.index() as int)),
            tail == tail_len(s@.take(it.index() as int)),
    {
        proof {
            let i = it.index() as int;
            assert(s@.take(i + 1).drop_last() =~= s@.take(i));
            lemma_counts_bounded(s@.take(i));
        }
        if c == '\n' {
            newlines = newlines + 1;
            tail = 0;
        } else {
            tail = tail + 1;
        }
    }
    proof {
        assert(s@.take(s@.len() as int) =~= s@);
    }
    TextExtent { chars: total, newlines, tail }
}

} // verus!
