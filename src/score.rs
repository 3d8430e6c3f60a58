//! Points for an accepted word.

use vstd::prelude::*;

verus! {

/// Bonus for a word that uses seven distinct characters.
pub const PANGRAM_BONUS: usize = 7;

/// Number of distinct characters of a word.
pub open spec fn distinct_count(w: Seq<char>) -> nat {
    w.to_set().len()
}

/// A pangram uses exactly seven distinct characters, whichever they are.
pub open spec fn is_pangram_spec(w: Seq<char>) -> bool {
    distinct_count(w) == 7
}

/// Points for a word: seven extra for a pangram, plus one for a word of four
/// characters and the length for any other word.
pub open spec fn score_of(w: Seq<char>) -> nat {
    (if is_pangram_spec(w) { 7nat } else { 0nat }) + (if w.len() == 4 { 1nat } else { w.len() })
}

/// The points as a machine integer, held at `usize::MAX` where the sum does
/// not fit (a word would have to be nearly as long as the address space).
pub open spec fn score_points(w: Seq<char>) -> usize {
    if score_of(w) > usize::MAX { usize::MAX } else { score_of(w) as usize }
}

/// Counts the distinct characters of `word`.
pub fn count_distinct(word: &str) -> (r: usize)
    ensures
        r as nat == distinct_count(word@),
{
    let n = word.unicode_len();
    let mut seen: Vec<char> = Vec::new();
    let mut i: usize = 0;
    while i < n
        invariant
            n == word@.len(),
            i <= n,
            seen@.no_duplicates(),
            seen@.to_set() == word@.take(i as int).to_set(),
            seen@.len() <= i,
        decreases n - i,
    {
        let c = word.get_char(i);
        let mut found = false;
        let mut j: usize = 0;
        while j < seen.len()
            invariant
                j <= seen@.len(),
                found == (exists|k: int| 0 <= k < j && seen@[k] == c),
            decreases seen@.len() - j,
        {
            if seen[j] == c {
                found = true;
            }
            j += 1;
        }
        proof {
            assert(found == seen@.contains(c));
            assert(word@.take(i + 1) == word@.take(i as int).push(c));
            word@.take(i as int).lemma_push_to_set_commute(c);
        }
        if !found {
            proof {
                seen@.lemma_push_to_set_commute(c);
            }
            seen.push(c);
        } else {
            proof {
                assert(seen@.to_set().contains(c));
                assert(seen@.to_set().insert(c) == seen@.to_set());
            }
        }
        i += 1;
    }
    proof {
        assert(word@.take(n as int) == word@);
        seen@.unique_seq_to_set();
    }
    seen.len()
}

/// Tells whether `word` uses exactly seven distinct characters.
pub fn is_pangram(word: &str) -> (r: bool)
    ensures
        r == is_pangram_spec(word@),
{
    count_distinct(word) == 7
}

/// Points that `word` earns when it is accepted.
pub fn compute_score(word: &str) -> (r: usize)
    ensures
        r == score_points(word@),
{
    let bonus: usize = if is_pangram(word) { PANGRAM_BONUS } else { 0 };
    let len = word.unicode_len();
    let base: usize = if len == 4 { 1 } else { len };
    bonus.saturating_add(base)
}

/// Apart from four-character words and pangrams, a word scores its length.
pub proof fn lemma_plain_word_scores_length(w: Seq<char>)
    requires
        w.len() != 4,
        !is_pangram_spec(w),
    ensures
        score_of(w) == w.len(),
{
}

} // verus!
