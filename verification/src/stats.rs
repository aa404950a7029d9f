//! The statistics record and the single-pass accumulator that computes it.

use vstd::prelude::*;

use crate::counting::after_ws_at;
use crate::counting::count_chars;
use crate::counting::count_lines;
use crate::counting::count_newlines;
use crate::counting::count_words;
use crate::counting::count_words_from;
use crate::counting::first_step;
use crate::counting::is_cont_byte;
use crate::counting::is_second_byte;
use crate::counting::is_ws_byte;
use crate::counting::lemma_newlines_bound;

verus! {

/// Statistics of one input: its byte, line, word, and character counts.
#[derive(Clone, Copy, Debug, PartialEq, Eq, Structural)]
pub struct Stats {
    /// Exact byte length of the input.
    pub bytes: usize,
    /// Number of lines (see [`count_lines`]).
    pub lines: usize,
    /// Number of maximal whitespace-delimited words.
    pub words: usize,
    /// Number of Unicode scalar values under lossy decoding.
    pub chars: usize,
}

/// What it means for a record to be the statistics of the byte sequence `s`.
pub open spec fn stats_for(st: Stats, s: Seq<u8>) -> bool {
    &&& st.bytes == s.len()
    &&& st.lines == count_lines(s)
    &&& st.words == count_words(s)
    &&& st.chars == count_chars(s)
}

/// Whether `b` is ASCII whitespace, the byte class on which words split.
pub fn is_ascii_ws(b: u8) -> (r: bool)
    ensures
        r == is_ws_byte(b),
{
    b == 0x20 || b == 0x09 || b == 0x0A || b == 0x0C || b == 0x0D
}

/// Whether `b` is a UTF-8 continuation byte.
fn cont_byte(b: u8) -> (r: bool)
    ensures
        r == is_cont_byte(b),
{
    0x80 <= b && b <= 0xBF
}

/// Whether `b1` may stand as the second byte of a well-formed UTF-8 sequence
/// led by `b0`.
fn second_byte(b0: u8, b1: u8) -> (r: bool)
    ensures
        r == is_second_byte(b0, b1),
{
    if b0 == 0xE0 {
        0xA0 <= b1 && b1 <= 0xBF
    } else if b0 == 0xED {
        0x80 <= b1 && b1 <= 0x9F
    } else if b0 == 0xF0 {
        0x90 <= b1 && b1 <= 0xBF
    } else if b0 == 0xF4 {
        0x80 <= b1 && b1 <= 0x8F
    } else {
        0x80 <= b1 && b1 <= 0xBF
    }
}

/// How many bytes the character starting at position `i` consumes: the length
/// of the well-formed UTF-8 sequence there, or of the maximal subpart that
/// one replacement character stands for.
fn utf8_step(input: &Vec<u8>, i: usize) -> (step: usize)
    requires
        i < input@.len(),
    ensures
        step == first_step(input@.skip(i as int)),
        1 <= step,
        i + step <= input@.len(),
{
    let n: usize = input.len();
    let b0: u8 = input[i];
    if b0 < 0x80 {
        1
    } else if 0xC2 <= b0 && b0 <= 0xDF {
        if i + 1 < n && cont_byte(input[i + 1]) {
            2
        } else {
            1
        }
    } else if 0xE0 <= b0 && b0 <= 0xEF {
        if i + 1 < n && second_byte(b0, input[i + 1]) {
            if i + 2 < n && cont_byte(input[i + 2]) {
                3
            } else {
                2
            }
        } else {
            1
        }
    } else if 0xF0 <= b0 && b0 <= 0xF4 {
        if i + 1 < n && second_byte(b0, input[i + 1]) {
            if i + 2 < n && cont_byte(input[i + 2]) {
                if i + 3 < n && cont_byte(input[i + 3]) {
                    4
                } else {
                    3
                }
            } else {
                2
            }
        } else {
            1
        }
    } else {
        1
    }
}

/// Computes the statistics of `input` in one pass over its bytes.
///
/// The record is exactly the model's four counts: the byte length, the line
/// count, the word count, and the character count of `input`.
#[verifier::loop_isolation(false)]
pub fn accumulate(input: &Vec<u8>) -> (r: Stats)
    ensures
        stats_for(r, input@),
{
    let ghost s: Seq<u8> = input@;
    let n: usize = input.len();
    let mut nl: usize = 0;
    let mut words: usize = 0;
    let mut chars: usize = 0;
    let mut i: usize = 0;

    proof {
        assert(s.skip(0) =~= s);
    }

    while i < n
        invariant
            i <= n,
            count_chars(s) == chars + count_chars(s.skip(i as int)),
            count_words(s) == words + count_words_from(s.skip(i as int), after_ws_at(s, i as int)),
            count_newlines(s) == nl + count_newlines(s.skip(i as int)),
            chars <= i,
            words <= i,
            nl <= i,
        decreases n - i,
    {
        let step: usize = utf8_step(input, i);
        let end: usize = i + step;
        proof {
            assert(s.skip(i as int).skip(step as int) =~= s.skip(end as int));
        }
        chars = chars + 1;
        let mut j: usize = i;
        while j < end
            invariant
                i <= j,
                j <= end,
                count_words(s) == words + count_words_from(s.skip(j as int), after_ws_at(s, j as int)),
                count_newlines(s) == nl + count_newlines(s.skip(j as int)),
                words <= j,
                nl <= j,
            decreases end - j,
        {
            let b: u8 = input[j];
            proof {
                assert(s.skip(j as int).skip(1) =~= s.skip(j as int + 1));
            }
            if b == 0x0A {
                nl = nl + 1;
            }
            let at_start: bool = if j == 0 {
                true
            } else {
                is_ascii_ws(input[j - 1])
            };
            if !is_ascii_ws(b) && at_start {
                words = words + 1;
            }
            j = j + 1;
        }
        i = end;
    }

    let lines: usize = if n > 0 && input[n - 1] != 0x0A {
        proof {
            lemma_newlines_bound(s);
        }
        nl + 1
    } else {
        nl
    };

    Stats { bytes: n, lines, words, chars }
}

} // verus!
