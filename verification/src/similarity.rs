//! How close two product names are.
//!
//! The score is the `fuzzy-matcher` crate's, as its skim matcher gives it with
//! default settings. Two names are taken for the same product where the score is
//! strictly above `THRESHOLD`.

use fuzzy_matcher::skim::SkimMatcherV2;
use fuzzy_matcher::FuzzyMatcher;
use vstd::prelude::*;

verus! {

/// What a newly made `SkimMatcherV2` with default settings returns from
/// `fuzzy_match` for a choice and a pattern: `None` where the pattern's
/// characters do not occur in the choice in their order, else a score that
/// rewards adjacent matches and matches at the beginning of words.
pub uninterp spec fn skim_score(choice: Seq<char>, pattern: Seq<char>) -> Option<i64>;

/// Names longer than this are not scored. The matcher adds up its scores in 32
/// bits; up to this length no sum of them leaves that range.
pub const MAX_SCORED_CHARS: usize = 1_048_576;

/// Two names denote the same product where their score is strictly above this.
pub const THRESHOLD: i64 = 80;

/// Calls `SkimMatcherV2::fuzzy_match` on a matcher made for this one call, so
/// that no scratch memory of an earlier call is read. Nothing is proved of it:
/// the result is the named score of the two texts.
#[verifier::external_body]
fn skim_fuzzy_match(choice: &str, pattern: &str) -> (r: Option<i64>)
    requires
        choice@.len() <= MAX_SCORED_CHARS,
        pattern@.len() <= MAX_SCORED_CHARS,
    ensures
        r == skim_score(choice@, pattern@),
{
    SkimMatcherV2::default().fuzzy_match(choice, pattern)
}

/// The score of `name` against the key `key`: the matcher's, or none where
/// either is too long to be scored.
pub open spec fn similarity(key: Seq<char>, name: Seq<char>) -> Option<i64> {
    if key.len() <= MAX_SCORED_CHARS && name.len() <= MAX_SCORED_CHARS {
        skim_score(key, name)
    } else {
        None
    }
}

/// What a score counts for when keys compete: the score itself where it is
/// above the threshold, and the threshold where it is not or there is none.
pub open spec fn effective(score: Option<i64>) -> int {
    match score {
        Some(s) => if s > THRESHOLD {
            s as int
        } else {
            THRESHOLD as int
        },
        None => THRESHOLD as int,
    }
}

/// Whether a score says that two names denote the same product.
pub open spec fn is_match(score: Option<i64>) -> bool {
    effective(score) > THRESHOLD
}

/// The score of `name` against the key `key`.
pub fn score(key: &str, name: &str) -> (r: Option<i64>)
    ensures
        r == similarity(key@, name@),
{
    if key.unicode_len() <= MAX_SCORED_CHARS && name.unicode_len() <= MAX_SCORED_CHARS {
        skim_fuzzy_match(key, name)
    } else {
        None
    }
}

/// What a score counts for when keys compete.
pub fn effective_score(score: Option<i64>) -> (r: i64)
    ensures
        r == effective(score),
{
    match score {
        Some(s) => if s > THRESHOLD {
            s
        } else {
            THRESHOLD
        },
        None => THRESHOLD,
    }
}

} // verus!
