//! Choice of the best fuzzy match among stored entries.

use vstd::prelude::*;
use fuzzy_matcher::FuzzyMatcher;
use fuzzy_matcher::skim::SkimMatcherV2;
use crate::text::{chars_of, string_of};

verus! {

/// What fuzzy_matcher's skim matcher, in its default configuration, scores `pattern`
/// against `choice`: `None` when the pattern does not match.
pub uninterp spec fn skim_score_of(choice: Seq<char>, pattern: Seq<char>) -> Option<i64>;

/// Relies on `SkimMatcherV2::fuzzy_match` with the default configuration: the score
/// depends on the two strings alone.
#[verifier::external_body]
fn skim_score(choice: &str, pattern: &str) -> (r: Option<i64>)
    ensures
        r == skim_score_of(choice@, pattern@),
{
    SkimMatcherV2::default().fuzzy_match(choice, pattern)
}

/// Position `k` holds the first of the highest scores present.
pub open spec fn is_first_best(scores: Seq<Option<i64>>, k: int) -> bool {
    &&& 0 <= k < scores.len()
    &&& scores[k] is Some
    &&& forall|j: int| 0 <= j < scores.len() && #[trigger] scores[j] is Some ==> scores[j]->0 <= scores[k]->0
    &&& forall|j: int| 0 <= j < k && #[trigger] scores[j] is Some ==> scores[j]->0 < scores[k]->0
}

/// The position of the first of the highest scores present, or `None` when no score is.
pub fn pick_best(scores: &Vec<Option<i64>>) -> (r: Option<usize>)
    ensures
        r is None <==> forall|j: int| 0 <= j < scores.len() ==> #[trigger] scores@[j] is None,
        r matches Some(k) ==> is_first_best(scores@, k as int),
{
    let mut best: Option<usize> = None;
    let mut i: usize = 0;
    while i < scores.len()
        invariant
            i <= scores.len(),
            best is None ==> forall|j: int| 0 <= j < i ==> #[trigger] scores@[j] is None,
            best matches Some(k) ==> k < i && is_first_best(scores@.take(i as int), k as int),
        decreases scores.len() - i,
    {
        let ghost before = scores@.take(i as int);
        proof {
            assert(forall|j: int| 0 <= j < i ==> #[trigger] scores@.take(i + 1)[j] == before[j]);
        }
        match scores[i] {
            Some(s) => {
                match best {
                    None => {
                        best = Some(i);
                    },
                    Some(k) => {
                        if s > scores[k].unwrap() {
                            best = Some(i);
                        }
                    },
                }
            },
            None => {},
        }
        i = i + 1;
    }
    assert(scores@.take(scores.len() as int) =~= scores@);
    best
}

/// The position of the choice that `pattern` matches best (the first such on equal
/// scores), or `None` when it matches none.
pub fn best_fuzzy_match(choices: &Vec<String>, pattern: &str) -> (r: Option<usize>)
    ensures
        r is None <==> forall|j: int| 0 <= j < choices.len() ==> skim_score_of(#[trigger] choices@[j]@, pattern@) is None,
        r matches Some(k) ==> is_first_best(Seq::new(choices.len() as nat, |j: int| skim_score_of(choices@[j]@, pattern@)), k as int),
{
    let mut scores: Vec<Option<i64>> = Vec::new();
    let mut i: usize = 0;
    while i < choices.len()
        invariant
            i <= choices.len(),
            scores.len() == i,
            forall|j: int| 0 <= j < i ==> #[trigger] scores@[j] == skim_score_of(choices@[j]@, pattern@),
        decreases choices.len() - i,
    {
        scores.push(skim_score(choices[i].as_str(), pattern));
        i = i + 1;
    }
    let ghost expect = Seq::new(choices.len() as nat, |j: int| skim_score_of(choices@[j]@, pattern@));
    assert(scores@ =~= expect);
    let r = pick_best(&scores);
    proof {
        if r is None {
            assert forall|j: int| 0 <= j < choices.len() implies skim_score_of(#[trigger] choices@[j]@, pattern@) is None by {
                assert(scores@[j] is None);
            }
        } else {
            assert(!forall|j: int| 0 <= j < scores.len() ==> #[trigger] scores@[j] is None);
        }
    }
    r
}

/// The text searched when matching by command: the aide's name, a space, and the input.
pub fn command_search_text(name: &str, input_text: &str) -> (r: String)
    ensures
        r@ == name@ + seq![' '] + input_text@,
{
    let mut cs = chars_of(name);
    cs.push(' ');
    let mut rest = chars_of(input_text);
    cs.append(&mut rest);
    string_of(&cs)
}

} // verus!
