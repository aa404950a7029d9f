//! The mathematical model of the statistics: spec functions on `Seq<u8>` that
//! define what the byte, line, word, and character counts of an input are.
//!
//! Lines are delimited by the line-feed byte `0x0A`; a final segment with no
//! trailing delimiter still counts as a line when it is non-empty. Words are
//! maximal runs of bytes that are not ASCII whitespace. Characters are Unicode
//! scalar values under a lossy UTF-8 decoding: every ill-formed subsequence is
//! replaced, maximal valid subpart by maximal valid subpart, with a single
//! replacement character, which counts as one scalar value.

use vstd::prelude::*;

verus! {

/// The bytes on which words split: the ASCII whitespace characters
/// (space, tab, line feed, form feed, carriage return).
pub open spec fn is_ws_byte(b: u8) -> bool {
    b == 0x20 || b == 0x09 || b == 0x0A || b == 0x0C || b == 0x0D
}

/// Number of line-feed bytes in `s`.
pub open spec fn count_newlines(s: Seq<u8>) -> nat
    decreases s.len(),
{
    if s.len() == 0 {
        0
    } else {
        (if s[0] == 0x0A { 1nat } else { 0nat }) + count_newlines(s.skip(1))
    }
}

/// The line count of an input: one line per line-feed byte, plus one for a
/// trailing non-empty segment that lacks its delimiter.
pub open spec fn count_lines(s: Seq<u8>) -> nat {
    count_newlines(s) + if s.len() > 0 && s.last() != 0x0A {
        1nat
    } else {
        0nat
    }
}

/// Number of word starts in `s`, given whether the byte just before `s`
/// (if any) was whitespace. A word starts at every non-whitespace byte that
/// follows whitespace or the start of the input, so this counts the maximal
/// whitespace-delimited tokens of `s`.
pub open spec fn count_words_from(s: Seq<u8>, after_ws: bool) -> nat
    decreases s.len(),
{
    if s.len() == 0 {
        0
    } else {
        (if after_ws && !is_ws_byte(s[0]) { 1nat } else { 0nat })
            + count_words_from(s.skip(1), is_ws_byte(s[0]))
    }
}

/// The word count of an input: the number of maximal runs of
/// non-whitespace bytes.
pub open spec fn count_words(s: Seq<u8>) -> nat {
    count_words_from(s, true)
}

/// Whether the byte at position `i` is preceded by whitespace or by nothing,
/// i.e. whether a non-whitespace byte at `i` would start a word.
pub open spec fn after_ws_at(s: Seq<u8>, i: int) -> bool {
    i == 0 || is_ws_byte(s[i - 1])
}

/// Whether `b` is a UTF-8 continuation byte (`0x80..=0xBF`).
pub open spec fn is_cont_byte(b: u8) -> bool {
    0x80 <= b && b <= 0xBF
}

/// Whether `b1` may follow the lead byte `b0` as the second byte of a
/// well-formed UTF-8 sequence. Four lead bytes constrain their second byte
/// beyond the plain continuation range, which rules out overlong forms,
/// surrogates, and values past the last code point.
pub open spec fn is_second_byte(b0: u8, b1: u8) -> bool {
    if b0 == 0xE0 {
        0xA0 <= b1 && b1 <= 0xBF
    } else if b0 == 0xED {
        0x80 <= b1 && b1 <= 0x9F
    } else if b0 == 0xF0 {
        0x90 <= b1 && b1 <= 0xBF
    } else if b0 == 0xF4 {
        0x80 <= b1 && b1 <= 0x8F
    } else {
        is_cont_byte(b1)
    }
}

/// How many bytes the first decoded character of a non-empty `s` consumes.
///
/// If `s` begins with a well-formed UTF-8 sequence, that sequence's length
/// (1 to 4); otherwise the length of the maximal subpart of an ill-formed
/// sequence, which the lossy decoding replaces with a single replacement
/// character: the longest prefix of `s` that is a prefix of some well-formed
/// sequence, or one byte if there is none.
pub open spec fn first_step(s: Seq<u8>) -> nat
    recommends
        s.len() > 0,
{
    let b0 = s[0];
    if b0 < 0x80 {
        1
    } else if 0xC2 <= b0 && b0 <= 0xDF {
        if s.len() >= 2 && is_cont_byte(s[1]) {
            2
        } else {
            1
        }
    } else if 0xE0 <= b0 && b0 <= 0xEF {
        if s.len() >= 2 && is_second_byte(b0, s[1]) {
            if s.len() >= 3 && is_cont_byte(s[2]) {
                3
            } else {
                2
            }
        } else {
            1
        }
    } else if 0xF0 <= b0 && b0 <= 0xF4 {
        if s.len() >= 2 && is_second_byte(b0, s[1]) {
            if s.len() >= 3 && is_cont_byte(s[2]) {
                if s.len() >= 4 && is_cont_byte(s[3]) {
                    4
                } else {
                    3
                }
            } else {
                2
            }
        } else {
            1
        }
    } else {
        1
    }
}

/// The character count of an input: the number of Unicode scalar values that
/// lossy UTF-8 decoding produces, counting each replacement character as one.
pub open spec fn count_chars(s: Seq<u8>) -> nat
    decreases s.len(),
{
    if s.len() == 0 {
        0
    } else {
        1 + count_chars(s.skip(first_step(s) as int))
    }
}

/// Length of the token at the head of `s`: the maximal run of non-whitespace
/// bytes starting at position 0, or zero when `s` is empty or starts with
/// whitespace.
pub open spec fn token_len(s: Seq<u8>) -> nat
    decreases s.len(),
{
    if s.len() == 0 || is_ws_byte(s[0]) {
        0
    } else {
        1 + token_len(s.skip(1))
    }
}

/// A token is never longer than the input it heads.
pub proof fn lemma_token_len_le(s: Seq<u8>)
    ensures
        token_len(s) <= s.len(),
    decreases s.len(),
{
    if s.len() > 0 && !is_ws_byte(s[0]) {
        lemma_token_len_le(s.skip(1));
    }
}

/// Number of whitespace-delimited tokens in `s`, read off by the tokenizer
/// itself: skip whitespace; at a non-whitespace byte, count one token and
/// skip past its maximal run.
pub open spec fn count_tokens(s: Seq<u8>) -> nat
    decreases s.len() via count_tokens_decreases
{
    if s.len() == 0 {
        0
    } else if is_ws_byte(s[0]) {
        count_tokens(s.skip(1))
    } else {
        1 + count_tokens(s.skip(token_len(s) as int))
    }
}

#[via_fn]
proof fn count_tokens_decreases(s: Seq<u8>) {
    lemma_token_len_le(s);
}

/// Whether a non-empty `s` begins with one complete well-formed UTF-8
/// sequence.
pub open spec fn first_is_well_formed(s: Seq<u8>) -> bool {
    s.len() > 0 && {
        let b0 = s[0];
        ||| b0 < 0x80
        ||| (0xC2 <= b0 && b0 <= 0xDF && s.len() >= 2 && is_cont_byte(s[1]))
        ||| (0xE0 <= b0 && b0 <= 0xEF && s.len() >= 3 && is_second_byte(b0, s[1])
            && is_cont_byte(s[2]))
        ||| (0xF0 <= b0 && b0 <= 0xF4 && s.len() >= 4 && is_second_byte(b0, s[1])
            && is_cont_byte(s[2]) && is_cont_byte(s[3]))
    }
}

/// Whether `s` is entirely well-formed UTF-8: a sequence of complete
/// well-formed sequences with nothing left over.
pub open spec fn is_valid_utf8(s: Seq<u8>) -> bool
    decreases s.len(),
{
    s.len() == 0 || (first_is_well_formed(s) && is_valid_utf8(s.skip(first_step(s) as int)))
}

/// Number of bytes in `s` that are not continuation bytes. In well-formed
/// UTF-8 every scalar value owns exactly one such byte (its lead byte), so
/// this counts the scalar values of a valid input.
pub open spec fn count_starts(s: Seq<u8>) -> nat
    decreases s.len(),
{
    if s.len() == 0 {
        0
    } else {
        (if is_cont_byte(s[0]) { 0nat } else { 1nat }) + count_starts(s.skip(1))
    }
}

/// There are no more line feeds than bytes, and strictly fewer when the last
/// byte is not itself a line feed; hence the line count never exceeds the
/// byte count.
pub proof fn lemma_newlines_bound(s: Seq<u8>)
    ensures
        count_newlines(s) <= s.len(),
        s.len() > 0 && s.last() != 0x0A ==> count_newlines(s) < s.len(),
    decreases s.len(),
{
    if s.len() > 0 {
        lemma_newlines_bound(s.skip(1));
        if s.len() > 1 {
            assert(s.skip(1).last() == s.last());
        }
    }
}

} // verus!
