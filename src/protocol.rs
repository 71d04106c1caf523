//! The confirm-or-abort protocol that turns a resolution outcome into a decision.
//!
//! A caller resolves the typed name, hands the outcome to [`decide`], and, when asked to
//! confirm, puts the question to the user and hands the answer to [`after_confirmation`].

use vstd::prelude::*;
use vstd::string::StringExecFns;
use crate::resolver::{reaches_threshold, FuzzyMatchResult};
use crate::similarity::{compare_fractions, fraction_cmp, Ratio};
use crate::command::{trim_end, trim_start};
use crate::text::{chars_of, lower_of, string_of};

verus! {

/// What the caller means to do with the named entity.
#[derive(Clone, Copy, Debug, PartialEq, Eq, Structural)]
pub enum Intent {
    /// The entity must already exist (update, delete, edit, add data, get).
    Lookup,
    /// The entity is opened if it exists and created otherwise.
    Create,
}

/// A step of the protocol.
pub enum Resolution {
    /// Operate on this existing entity.
    Proceed(String),
    /// Ask the user whether this suggested entity is the one meant.
    Confirm(String),
    /// Create a new entity with this name.
    CreateNew(String),
    /// Abort: nothing matched.
    NotFound,
    /// Abort: the user declined the suggestion.
    Cancelled,
}

/// A suggestion score at or above the threshold of 3/10.
pub open spec fn suggestion_reaches_threshold(score: Ratio) -> bool {
    score.den > 0 && reaches_threshold((score.num as int, score.den as int))
}

fn score_reaches_threshold(score: Ratio) -> (r: bool)
    ensures
        r == suggestion_reaches_threshold(score),
{
    if score.den == 0 {
        return false;
    }
    let c = compare_fractions(score.num, score.den, 3, 10);
    proof {
        assert(fraction_cmp(score.num as int, score.den as int, 3, 10) >= 0 <==> 10 * score.num >= 3 * score.den);
    }
    c >= 0
}

/// First step: an exact match proceeds with the typed name; a suggestion that reaches the
/// threshold asks for confirmation; anything else is "not found" for a lookup and a new
/// entity under the typed name for a creation.
pub fn decide(intent: Intent, input_name: &str, result: &FuzzyMatchResult) -> (r: Resolution)
    ensures
        result.exact_match ==> (r matches Resolution::Proceed(n) && n@ == input_name@),
        !result.exact_match && result.suggested_name is Some && result.score is Some && suggestion_reaches_threshold(
            result.score->0,
        ) ==> (r matches Resolution::Confirm(n) && n@ == result.suggested_name->0@),
        !result.exact_match && !(result.suggested_name is Some && result.score is Some && suggestion_reaches_threshold(
            result.score->0,
        )) ==> match intent {
            Intent::Lookup => r is NotFound,
            Intent::Create => r matches Resolution::CreateNew(n) && n@ == input_name@,
        },
{
    if result.exact_match {
        return Resolution::Proceed(String::from_str(input_name));
    }
    match (&result.suggested_name, &result.score) {
        (Some(name), Some(score)) => {
            if score_reaches_threshold(*score) {
                return Resolution::Confirm(name.clone());
            }
        },
        _ => {},
    }
    match intent {
        Intent::Lookup => Resolution::NotFound,
        Intent::Create => Resolution::CreateNew(String::from_str(input_name)),
    }
}

/// Second step, after the user answered about `suggestion`: a confirmed suggestion proceeds
/// with the suggested entity; a declined one cancels a lookup and creates a new entity
/// under the typed name for a creation.
pub fn after_confirmation(intent: Intent, input_name: &str, suggestion: &String, confirmed: bool) -> (r: Resolution)
    ensures
        confirmed ==> (r matches Resolution::Proceed(n) && n@ == suggestion@),
        !confirmed ==> match intent {
            Intent::Lookup => r is Cancelled,
            Intent::Create => r matches Resolution::CreateNew(n) && n@ == input_name@,
        },
{
    if confirmed {
        Resolution::Proceed(suggestion.clone())
    } else {
        match intent {
            Intent::Lookup => Resolution::Cancelled,
            Intent::Create => Resolution::CreateNew(String::from_str(input_name)),
        }
    }
}

/// An answer that confirms: "y" or "yes" in any case, surrounding whitespace ignored.
pub open spec fn affirmative(answer: Seq<char>) -> bool {
    let a = lower_of(trim_end(trim_start(answer)));
    a == "y"@ || a == "yes"@
}

/// Whether a typed answer to a confirmation question confirms.
pub fn is_affirmative(answer: &str) -> (r: bool)
    ensures
        r == affirmative(answer@),
{
    let trimmed = string_of(&crate::command::trim_chars(&chars_of(answer)));
    let lowered = crate::text::to_lower(trimmed.as_str());
    lowered == String::from_str("y") || lowered == String::from_str("yes")
}

} // verus!
