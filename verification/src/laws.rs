//! Laws that relate the model's counts to one another: the word count agrees
//! with a direct tokenizer, the character count is bounded by the byte count
//! and agrees with the lead-byte count on valid UTF-8, and the statistics of
//! an input are unique.

use vstd::prelude::*;

use crate::counting::count_chars;
use crate::counting::count_starts;
use crate::counting::count_tokens;
use crate::counting::count_words;
use crate::counting::count_words_from;
use crate::counting::first_step;
use crate::counting::is_cont_byte;
use crate::counting::is_valid_utf8;
use crate::counting::is_ws_byte;
use crate::counting::lemma_token_len_le;
use crate::counting::token_len;
use crate::stats::stats_for;
use crate::stats::Stats;

verus! {

/// Law: on every input, the word count equals the number of maximal
/// whitespace-delimited non-empty tokens, as a tokenizer reads them off.
pub proof fn lemma_words_are_tokens(s: Seq<u8>)
    ensures
        count_words(s) == count_tokens(s),
    decreases s.len(),
{
    if s.len() == 0 {
    } else if is_ws_byte(s[0]) {
        lemma_words_are_tokens(s.skip(1));
    } else {
        lemma_words_in_token(s.skip(1));
        lemma_token_len_le(s.skip(1));
        assert(s.skip(1).skip(token_len(s.skip(1)) as int) =~= s.skip(token_len(s) as int));
    }
}

/// Inside a token (the previous byte was not whitespace), the remaining word
/// starts are exactly the tokens that follow the current token's tail.
proof fn lemma_words_in_token(s: Seq<u8>)
    ensures
        count_words_from(s, false) == count_tokens(s.skip(token_len(s) as int)),
    decreases s.len(),
{
    if s.len() == 0 {
        assert(s.skip(0) =~= s);
    } else if is_ws_byte(s[0]) {
        assert(s.skip(0) =~= s);
        lemma_words_are_tokens(s.skip(1));
    } else {
        lemma_words_in_token(s.skip(1));
        lemma_token_len_le(s.skip(1));
        assert(s.skip(1).skip(token_len(s.skip(1)) as int) =~= s.skip(token_len(s) as int));
    }
}

/// Law: on every input, valid UTF-8 or not, there are no more characters than
/// bytes, since each decoded character consumes at least one byte.
pub proof fn lemma_chars_le_bytes(s: Seq<u8>)
    ensures
        count_chars(s) <= s.len(),
    decreases s.len(),
{
    if s.len() > 0 {
        lemma_chars_le_bytes(s.skip(first_step(s) as int));
    }
}

/// Skipping a prefix made of continuation bytes does not change the number
/// of lead bytes.
proof fn lemma_starts_skip_cont(s: Seq<u8>, k: int)
    requires
        0 <= k <= s.len(),
        forall|j: int| 0 <= j < k ==> is_cont_byte(s[j]),
    ensures
        count_starts(s) == count_starts(s.skip(k)),
    decreases k,
{
    if k == 0 {
        assert(s.skip(0) =~= s);
    } else {
        assert(forall|j: int| 0 <= j < k - 1 ==> is_cont_byte(s.skip(1)[j]));
        lemma_starts_skip_cont(s.skip(1), k - 1);
        assert(s.skip(1).skip(k - 1) =~= s.skip(k));
    }
}

/// Law: on valid UTF-8 the character count equals the number of Unicode
/// scalar values, counted as the bytes that are not continuation bytes: each
/// well-formed sequence contributes its lead byte and nothing else.
pub proof fn lemma_valid_utf8_chars(s: Seq<u8>)
    requires
        is_valid_utf8(s),
    ensures
        count_chars(s) == count_starts(s),
    decreases s.len(),
{
    if s.len() > 0 {
        let k = first_step(s) as int;
        assert(!is_cont_byte(s[0]));
        assert(forall|j: int| 0 <= j < k - 1 ==> is_cont_byte(s.skip(1)[j]));
        lemma_starts_skip_cont(s.skip(1), k - 1);
        assert(s.skip(1).skip(k - 1) =~= s.skip(k));
        lemma_valid_utf8_chars(s.skip(k));
    }
}

/// Law: a pure-ASCII input is valid UTF-8 and its character count equals its
/// byte count.
pub proof fn lemma_ascii_chars(s: Seq<u8>)
    requires
        forall|j: int| 0 <= j < s.len() ==> s[j] < 0x80,
    ensures
        is_valid_utf8(s),
        count_chars(s) == s.len(),
    decreases s.len(),
{
    if s.len() > 0 {
        assert(forall|j: int| 0 <= j < s.skip(1).len() ==> s.skip(1)[j] < 0x80);
        lemma_ascii_chars(s.skip(1));
    }
}

/// Law: accumulation is deterministic. Any two statistics records of the same
/// byte sequence are identical, so re-running the accumulator on an unchanged
/// input always yields the same record.
pub proof fn lemma_stats_deterministic(a: Stats, b: Stats, s: Seq<u8>)
    requires
        stats_for(a, s),
        stats_for(b, s),
    ensures
        a == b,
{
}

} // verus!
