//! Splitting at whitespace alone: what the scanner comes down to on a line
//! with no quotes and no backslashes.

use vstd::prelude::*;
use crate::units::is_whitespace;

verus! {

/// The length of the longest prefix of `s` that holds no whitespace.
pub open spec fn word_len(s: Seq<u16>) -> nat
    decreases s.len(),
{
    if s.len() == 0 || is_whitespace(s[0]) {
        0
    } else {
        1 + word_len(s.skip(1))
    }
}

/// The words of `s`: its maximal runs of units that are not whitespace, in
/// order.
pub open spec fn split_whitespace(s: Seq<u16>) -> Seq<Seq<u16>>
    decreases s.len(),
{
    if s.len() == 0 {
        Seq::empty()
    } else if is_whitespace(s[0]) {
        split_whitespace(s.skip(1))
    } else {
        proof {
            lemma_word_len_bounds(s);
        }
        seq![s.take(word_len(s) as int)] + split_whitespace(s.skip(word_len(s) as int))
    }
}

/// The first word of `s` ends within `s`, and holds a unit where `s` starts
/// with one that is not whitespace.
pub proof fn lemma_word_len_bounds(s: Seq<u16>)
    ensures
        word_len(s) <= s.len(),
        s.len() > 0 && !is_whitespace(s[0]) ==> word_len(s) >= 1,
    decreases s.len(),
{
    if s.len() > 0 && !is_whitespace(s[0]) {
        lemma_word_len_bounds(s.skip(1));
    }
}

/// A run of units without whitespace, followed by whitespace or by nothing,
/// is the first word of the whole.
pub proof fn lemma_word_len_of_prefix(word: Seq<u16>, rest: Seq<u16>)
    requires
        forall|i: int| 0 <= i < word.len() ==> !is_whitespace(word[i]),
        rest.len() == 0 || is_whitespace(rest[0]),
    ensures
        word_len(word + rest) == word.len(),
    decreases word.len(),
{
    if word.len() == 0 {
        assert(word + rest =~= rest);
    } else {
        assert((word + rest).skip(1) =~= word.skip(1) + rest);
        assert((word + rest)[0] == word[0]);
        lemma_word_len_of_prefix(word.skip(1), rest);
    }
}

/// Whether `word` holds at least one unit, and no whitespace.
pub open spec fn is_solid(word: Seq<u16>) -> bool {
    word.len() > 0 && forall|j: int| 0 <= j < word.len() ==> !is_whitespace(#[trigger] word[j])
}

/// Every word holds at least one unit, and no whitespace.
pub proof fn lemma_words_are_solid(s: Seq<u16>)
    ensures
        forall|k: int|
            0 <= k < split_whitespace(s).len() ==> is_solid(#[trigger] split_whitespace(s)[k]),
    decreases s.len(),
{
    if s.len() == 0 {
    } else if is_whitespace(s[0]) {
        lemma_words_are_solid(s.skip(1));
        assert(split_whitespace(s) == split_whitespace(s.skip(1)));
    } else {
        lemma_word_holds_no_whitespace(s);
        let n = word_len(s) as int;
        lemma_words_are_solid(s.skip(n));
        let first = s.take(n);
        let others = split_whitespace(s.skip(n));
        assert(split_whitespace(s) == seq![first] + others);
        assert(is_solid(first));
        assert forall|k: int| 0 <= k < split_whitespace(s).len() implies is_solid(
            #[trigger] split_whitespace(s)[k],
        ) by {
            if k > 0 {
                assert(split_whitespace(s)[k] == others[k - 1]);
            }
        }
    }
}

/// The first word holds no whitespace.
pub proof fn lemma_word_holds_no_whitespace(s: Seq<u16>)
    ensures
        word_len(s) <= s.len(),
        forall|i: int| 0 <= i < word_len(s) ==> !is_whitespace(#[trigger] s[i]),
    decreases s.len(),
{
    lemma_word_len_bounds(s);
    if s.len() > 0 && !is_whitespace(s[0]) {
        lemma_word_holds_no_whitespace(s.skip(1));
        assert forall|i: int| 0 <= i < word_len(s) implies !is_whitespace(#[trigger] s[i]) by {
            if i > 0 {
                assert(s[i] == s.skip(1)[i - 1]);
            }
        }
    }
}

} // verus!
