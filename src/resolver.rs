//! Resolution of a typed name against an index: exact match first, then the best fuzzy
//! candidate by a weighted score of string similarity and TF-IDF cosine similarity.

use vstd::prelude::*;
use vstd::string::StringExecFns;
use crate::index::{contains_name, vector_for, vector_of, IndexModel, TermWeight, TfIdfIndex};
use crate::similarity::{calculate_string_similarity, compare_fractions, fraction_cmp, string_similarity, Ratio};
use crate::text::tokenize;

verus! {

/// Cosine similarities are handed in as integers, in units of one part in this many.
pub const COSINE_SCALE: i64 = 1_000_000_000;

/// The outcome of resolving a name: an exact match, a suggestion with its score, or neither.
pub struct FuzzyMatchResult {
    pub exact_match: bool,
    pub suggested_name: Option<String>,
    pub score: Option<Ratio>,
}

/// The combined score of a candidate as a fraction: `0.7 * string similarity + 0.3 * cosine`,
/// where the cosine is `cos / COSINE_SCALE`.
pub open spec fn combined_score(input: Seq<char>, target: Seq<char>, cos: int) -> (int, int) {
    let ss = string_similarity(input, target);
    let s = COSINE_SCALE as int;
    (7 * s * ss.0 + 3 * cos * ss.1, 10 * s * ss.1)
}

/// A score reaches the suggestion threshold of 3/10 (boundary included).
pub open spec fn reaches_threshold(sc: (int, int)) -> bool {
    10 * sc.0 >= 3 * sc.1
}

/// The combined score of the `j`-th indexed name.
pub open spec fn candidate_score(names: Seq<Seq<char>>, input: Seq<char>, cos: Seq<i64>, j: int) -> (int, int) {
    combined_score(input, names[j], cos[j] as int)
}

pub open spec fn eligible(names: Seq<Seq<char>>, input: Seq<char>, cos: Seq<i64>, j: int) -> bool {
    reaches_threshold(candidate_score(names, input, cos, j))
}

/// Some indexed name reaches the threshold.
pub open spec fn has_candidate(names: Seq<Seq<char>>, input: Seq<char>, cos: Seq<i64>) -> bool {
    exists|j: int| 0 <= j < names.len() && #[trigger] eligible(names, input, cos, j)
}

/// The `k`-th name is the suggestion: it reaches the threshold, no eligible name scores
/// higher, and every eligible name before it scores lower.
pub open spec fn is_best(names: Seq<Seq<char>>, input: Seq<char>, cos: Seq<i64>, k: int) -> bool {
    let sk = candidate_score(names, input, cos, k);
    &&& 0 <= k < names.len()
    &&& eligible(names, input, cos, k)
    &&& forall|j: int|
        0 <= j < names.len() && #[trigger] eligible(names, input, cos, j) ==> fraction_cmp(
            sk.0,
            sk.1,
            candidate_score(names, input, cos, j).0,
            candidate_score(names, input, cos, j).1,
        ) >= 0
    &&& forall|j: int|
        0 <= j < k && #[trigger] eligible(names, input, cos, j) ==> fraction_cmp(
            sk.0,
            sk.1,
            candidate_score(names, input, cos, j).0,
            candidate_score(names, input, cos, j).1,
        ) > 0
}

/// Resolution of `input` against the index yields an exact match.
pub open spec fn resolves_exactly(m: IndexModel, input: Seq<char>) -> bool {
    m.names.contains(input)
}

proof fn lemma_cmp_trans(a: int, b: int, c: int, d: int, e: int, f: int)
    requires
        b > 0,
        d > 0,
        f > 0,
        fraction_cmp(a, b, c, d) > 0,
        fraction_cmp(c, d, e, f) >= 0,
    ensures
        fraction_cmp(a, b, e, f) > 0,
{
    assert(a * d * f > c * b * f) by (nonlinear_arith)
        requires a * d > c * b, f > 0;
    assert(c * f * b >= e * d * b) by (nonlinear_arith)
        requires c * f >= e * d, b > 0;
    assert((a * f - e * b) * d > 0) by (nonlinear_arith)
        requires a * d * f > c * b * f, c * f * b >= e * d * b;
    assert(a * f - e * b > 0) by (nonlinear_arith)
        requires (a * f - e * b) * d > 0, d > 0;
}

proof fn lemma_cmp_flip(a: int, b: int, c: int, d: int)
    ensures
        fraction_cmp(a, b, c, d) == -fraction_cmp(c, d, a, b),
{
    assert(c * b - a * d == -(a * d - c * b));
}

/// The score of one candidate, computed exactly.
fn candidate(input_name: &str, name: &String, cos: i64) -> (r: (i128, u128))
    requires
        -COSINE_SCALE <= cos <= COSINE_SCALE,
    ensures
        r.0 as int == combined_score(input_name@, name@, cos as int).0,
        r.1 as int == combined_score(input_name@, name@, cos as int).1,
        r.1 > 0,
        -10_000_000_000 * (usize::MAX as int) <= r.0 <= 10_000_000_000 * (usize::MAX as int),
        r.1 <= 10_000_000_000 * (usize::MAX as int),
{
    let ss = calculate_string_similarity(input_name, name.as_str());
    let n = ss.num as i128;
    let d = ss.den as i128;
    let c = cos as i128;
    let s = COSINE_SCALE as i128;
    proof {
        assert(0 <= n <= d <= usize::MAX);
        assert(0 <= 7 * s * n <= 7 * s * (usize::MAX as int)) by (nonlinear_arith)
            requires 0 <= n <= usize::MAX, s == 1_000_000_000;
        assert(-3 * s * d <= 3 * c * d <= 3 * s * d) by (nonlinear_arith)
            requires 0 <= d, -s <= c <= s;
        assert(0 < 10 * s * d <= 10 * s * (usize::MAX as int)) by (nonlinear_arith)
            requires 0 < d <= usize::MAX, s == 1_000_000_000;
        assert(3 * s * d <= 3 * s * (usize::MAX as int)) by (nonlinear_arith)
            requires 0 < d <= usize::MAX, s == 1_000_000_000;
        assert(10 * s * (usize::MAX as int) < 0x7fff_ffff_ffff_ffff_ffff_ffff_ffff_ffff);
        assert(3 * c * d <= 3 * s * (usize::MAX as int));
        assert(-3 * s * d >= -3 * s * (usize::MAX as int)) by (nonlinear_arith)
            requires 0 < d <= usize::MAX, s == 1_000_000_000;
    }
    let num = 7 * s * n + 3 * c * d;
    let den = (10 * s * d) as u128;
    (num, den)
}

/// Resolves `input_name` against `index`. `tfidf_scores[j]` is the cosine similarity, in
/// units of `1 / COSINE_SCALE`, between the query vector of `input_name` and the vector of
/// the `j`-th indexed name. An exact (case-sensitive) match wins with score 1; otherwise the
/// first of the best-scoring names that reach the threshold is suggested with its score.
pub fn find_fuzzy_match_in_index(input_name: &str, index: &TfIdfIndex, tfidf_scores: &Vec<i64>) -> (r:
    FuzzyMatchResult)
    requires
        tfidf_scores.len() == index.entity_names.len(),
        forall|j: int| 0 <= j < tfidf_scores.len() ==> -COSINE_SCALE <= #[trigger] tfidf_scores@[j] <= COSINE_SCALE,
    ensures
        r.exact_match == resolves_exactly(index@, input_name@),
        r.exact_match ==> r.suggested_name is Some && r.suggested_name->0@ == input_name@ && r.score == Some(
            Ratio { num: 1, den: 1 },
        ),
        !r.exact_match ==> (r.suggested_name is Some <==> has_candidate(index@.names, input_name@, tfidf_scores@)),
        !r.exact_match ==> (r.score is Some <==> r.suggested_name is Some),
        !r.exact_match && r.suggested_name is Some ==> exists|k: int|
            is_best(index@.names, input_name@, tfidf_scores@, k) && r.suggested_name->0@ == #[trigger] index@.names[k]
                && r.score->0.num as int == candidate_score(index@.names, input_name@, tfidf_scores@, k).0
                && r.score->0.den as int == candidate_score(index@.names, input_name@, tfidf_scores@, k).1,
{
    let input = String::from_str(input_name);
    if contains_name(&index.entity_names, &input) {
        return FuzzyMatchResult { exact_match: true, suggested_name: Some(input), score: Some(Ratio { num: 1, den: 1 }) };
    }
    let ghost names = index@.names;
    let ghost cos = tfidf_scores@;
    let ghost q = input_name@;
    let mut best: Option<(usize, Ratio)> = None;
    let mut i: usize = 0;
    while i < index.entity_names.len()
        invariant
            i <= index.entity_names.len(),
            names == index@.names,
            names.len() == index.entity_names.len(),
            cos == tfidf_scores@,
            q == input_name@,
            tfidf_scores.len() == index.entity_names.len(),
            forall|j: int| 0 <= j < tfidf_scores.len() ==> -COSINE_SCALE <= #[trigger] tfidf_scores@[j] <= COSINE_SCALE,
            best is None ==> forall|j: int| 0 <= j < i ==> !#[trigger] eligible(names, q, cos, j),
            best matches Some(b) ==> {
                &&& b.0 < i
                &&& b.1.den > 0
                &&& b.1.num as int == candidate_score(names, q, cos, b.0 as int).0
                &&& b.1.den as int == candidate_score(names, q, cos, b.0 as int).1
                &&& eligible(names, q, cos, b.0 as int)
                &&& forall|j: int|
                    0 <= j < i && #[trigger] eligible(names, q, cos, j) ==> fraction_cmp(
                        b.1.num as int,
                        b.1.den as int,
                        candidate_score(names, q, cos, j).0,
                        candidate_score(names, q, cos, j).1,
                    ) >= 0
                &&& forall|j: int|
                    0 <= j < b.0 && #[trigger] eligible(names, q, cos, j) ==> fraction_cmp(
                        b.1.num as int,
                        b.1.den as int,
                        candidate_score(names, q, cos, j).0,
                        candidate_score(names, q, cos, j).1,
                    ) > 0
            },
        decreases index.entity_names.len() - i,
    {
        let (num, den) = candidate(input_name, &index.entity_names[i], tfidf_scores[i]);
        proof {
            assert(index.entity_names@[i as int]@ == names[i as int]);
        }
        if 10 * num >= 3 * (den as i128) {
            let score = Ratio { num: num as u128, den };
            match best {
                None => {
                    best = Some((i, score));
                },
                Some(b) => {
                    let c = compare_fractions(score.num, score.den, b.1.num, b.1.den);
                    if c > 0 {
                        proof {
                            assert forall|j: int|
                                0 <= j < i && #[trigger] eligible(names, q, cos, j) implies fraction_cmp(
                                    score.num as int,
                                    score.den as int,
                                    candidate_score(names, q, cos, j).0,
                                    candidate_score(names, q, cos, j).1,
                                ) > 0 by {
                                lemma_cmp_trans(
                                    score.num as int,
                                    score.den as int,
                                    b.1.num as int,
                                    b.1.den as int,
                                    candidate_score(names, q, cos, j).0,
                                    candidate_score(names, q, cos, j).1,
                                );
                            }
                        }
                        best = Some((i, score));
                    } else {
                        proof {
                            lemma_cmp_flip(score.num as int, score.den as int, b.1.num as int, b.1.den as int);
                        }
                    }
                },
            }
        }
        i = i + 1;
    }
    match best {
        None => FuzzyMatchResult { exact_match: false, suggested_name: None, score: None },
        Some(b) => {
            let name = index.entity_names[b.0].clone();
            proof {
                assert(index.entity_names@[b.0 as int]@ == names[b.0 as int]);
                assert(is_best(names, q, cos, b.0 as int));
            }
            FuzzyMatchResult { exact_match: false, suggested_name: Some(name), score: Some(b.1) }
        },
    }
}

/// The TF-IDF vector of a query against the index's current vocabulary and statistics; the
/// query is not added to the index.
pub fn query_vector(input_name: &str, index: &TfIdfIndex) -> (r: Vec<TermWeight>)
    requires
        index.wf(),
    ensures
        r@ == vector_of(input_name@, index@.vocabulary, index.total_docs, index@.document_frequencies),
{
    let tokens = tokenize(input_name);
    vector_for(&tokens, &index.vocabulary, index.total_docs, &index.document_frequencies)
}

} // verus!
