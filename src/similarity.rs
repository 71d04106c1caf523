//! The string-similarity heuristic and exact comparison of fractions.

use vstd::prelude::*;
use crate::text::{chars_of, lower_of};

verus! {

/// A non-negative fraction `num / den`, with `den > 0` wherever one is produced here.
#[derive(Clone, Copy, Debug, PartialEq, Eq, Structural)]
pub struct Ratio {
    pub num: u128,
    pub den: u128,
}

/// Sign of `a - b`, as -1, 0 or 1.
pub open spec fn sign(x: int) -> int {
    if x > 0 {
        1
    } else if x < 0 {
        -1
    } else {
        0
    }
}

/// How `p1 / q1` compares with `p2 / q2` (positive denominators): the sign of the difference.
pub open spec fn fraction_cmp(p1: int, q1: int, p2: int, q2: int) -> int {
    sign(p1 * q2 - p2 * q1)
}

/// Compares two fractions of natural numbers exactly, without overflow, by the continued
/// fraction expansion: integer parts first, then the reciprocals of the remainders.
pub fn compare_fractions(p1: u128, q1: u128, p2: u128, q2: u128) -> (r: i8)
    requires
        q1 > 0,
        q2 > 0,
    ensures
        r as int == fraction_cmp(p1 as int, q1 as int, p2 as int, q2 as int),
    decreases q1 + q2,
{
    let a1 = p1 / q1;
    let a2 = p2 / q2;
    let r1 = p1 % q1;
    let r2 = p2 % q2;
    proof {
        vstd::arithmetic::div_mod::lemma_fundamental_div_mod(p1 as int, q1 as int);
        vstd::arithmetic::div_mod::lemma_fundamental_div_mod(p2 as int, q2 as int);
        assert(a1 * q1 == q1 * a1) by (nonlinear_arith);
        assert(a2 * q2 == q2 * a2) by (nonlinear_arith);
        lemma_split(p1 as int, q1 as int, a1 as int, r1 as int, p2 as int, q2 as int, a2 as int, r2 as int);
    }
    if a1 > a2 {
        1
    } else if a1 < a2 {
        -1
    } else if r1 == 0 && r2 == 0 {
        0
    } else if r1 == 0 {
        -1
    } else if r2 == 0 {
        1
    } else {
        compare_fractions(q2, r2, q1, r1)
    }
}

proof fn lemma_split(p1: int, q1: int, a1: int, r1: int, p2: int, q2: int, a2: int, r2: int)
    requires
        q1 > 0,
        q2 > 0,
        p1 == a1 * q1 + r1,
        p2 == a2 * q2 + r2,
        0 <= r1 < q1,
        0 <= r2 < q2,
        a1 >= 0,
        a2 >= 0,
    ensures
        a1 > a2 ==> p1 * q2 > p2 * q1,
        a1 < a2 ==> p1 * q2 < p2 * q1,
        a1 == a2 ==> p1 * q2 - p2 * q1 == r1 * q2 - r2 * q1,
        r1 == 0 && r2 > 0 ==> r1 * q2 - r2 * q1 < 0,
        r1 > 0 && r2 == 0 ==> r1 * q2 - r2 * q1 > 0,
        q2 * r1 - q1 * r2 == r1 * q2 - r2 * q1,
{
    assert(q2 * r1 - q1 * r2 == r1 * q2 - r2 * q1) by (nonlinear_arith);
    if r1 == 0 && r2 > 0 {
        assert(r2 * q1 > 0) by (nonlinear_arith) requires r2 > 0, q1 > 0;
        assert(r1 * q2 == 0) by (nonlinear_arith) requires r1 == 0;
    }
    if r1 > 0 && r2 == 0 {
        assert(r1 * q2 > 0) by (nonlinear_arith) requires r1 > 0, q2 > 0;
        assert(r2 * q1 == 0) by (nonlinear_arith) requires r2 == 0;
    }
    if a1 > a2 {
        assert(p1 * q2 >= (a2 + 1) * q1 * q2) by (nonlinear_arith)
            requires p1 == a1 * q1 + r1, a1 >= a2 + 1, q1 > 0, q2 > 0, r1 >= 0;
        assert(p2 * q1 < (a2 + 1) * q2 * q1) by (nonlinear_arith)
            requires p2 == a2 * q2 + r2, r2 < q2, q1 > 0;
        assert((a2 + 1) * q1 * q2 == (a2 + 1) * q2 * q1) by (nonlinear_arith);
    } else if a1 < a2 {
        assert(p2 * q1 >= (a1 + 1) * q2 * q1) by (nonlinear_arith)
            requires p2 == a2 * q2 + r2, a2 >= a1 + 1, q1 > 0, q2 > 0, r2 >= 0;
        assert(p1 * q2 < (a1 + 1) * q1 * q2) by (nonlinear_arith)
            requires p1 == a1 * q1 + r1, r1 < q1, q2 > 0;
        assert((a1 + 1) * q1 * q2 == (a1 + 1) * q2 * q1) by (nonlinear_arith);
    } else {
        assert(p1 * q2 - p2 * q1 == r1 * q2 - r2 * q1) by (nonlinear_arith)
            requires p1 == a1 * q1 + r1, p2 == a2 * q2 + r2, a1 == a2;
    }
}

/// `p` occurs in `s` as a contiguous run of characters.
pub open spec fn is_substring(p: Seq<char>, s: Seq<char>) -> bool {
    exists|i: int| 0 <= i && i + p.len() <= s.len() && #[trigger] s.subrange(i, i + p.len()) == p
}

/// Number of matches of the two-cursor walk over `a` and `b` from positions `i` and `j`:
/// equal characters match and advance both cursors; otherwise a one-step lookahead on
/// `a`, then on `b`, resynchronises; failing that, both cursors advance.
pub open spec fn walk(a: Seq<char>, b: Seq<char>, i: int, j: int) -> nat
    decreases (a.len() - i) + (b.len() - j),
{
    if 0 <= i < a.len() && 0 <= j < b.len() {
        if a[i] == b[j] {
            1 + walk(a, b, i + 1, j + 1)
        } else if i < a.len() - 1 && a[i + 1] == b[j] {
            walk(a, b, i + 1, j)
        } else if j < b.len() - 1 && a[i] == b[j + 1] {
            walk(a, b, i, j + 1)
        } else {
            walk(a, b, i + 1, j + 1)
        }
    } else {
        0
    }
}

/// The similarity of two lower-case strings, as a fraction (numerator, denominator): 4/5
/// when `b` contains `a`, else 3/5 when `a` contains `b`, else the matches of the walk over
/// the longer length (0 when both are empty).
pub open spec fn lowered_similarity(a: Seq<char>, b: Seq<char>) -> (int, int) {
    if is_substring(a, b) {
        (4, 5)
    } else if is_substring(b, a) {
        (3, 5)
    } else {
        let l = if a.len() >= b.len() {
            a.len()
        } else {
            b.len()
        };
        if l == 0 {
            (0, 1)
        } else {
            (walk(a, b, 0, 0) as int, l as int)
        }
    }
}

/// The heuristic similarity of `input` to `target`: that of their lower-case forms.
pub open spec fn string_similarity(input: Seq<char>, target: Seq<char>) -> (int, int) {
    lowered_similarity(lower_of(input), lower_of(target))
}

/// Whether `p` occurs in `s`.
pub fn contains_chars(s: &Vec<char>, p: &Vec<char>) -> (r: bool)
    ensures
        r == is_substring(p@, s@),
{
    if p.len() > s.len() {
        return false;
    }
    let mut i: usize = 0;
    while i <= s.len() - p.len()
        invariant
            p.len() <= s.len(),
            i <= s.len() - p.len() + 1,
            forall|k: int| 0 <= k < i ==> #[trigger] s@.subrange(k, k + p.len()) != p@,
        decreases s.len() - i,
    {
        let mut j: usize = 0;
        let mut same = true;
        while j < p.len()
            invariant
                i + p.len() <= s.len(),
                j <= p.len(),
                same <==> (forall|k: int| 0 <= k < j ==> s@[i + k] == p@[k]),
            decreases p.len() - j,
        {
            if s[i + j] != p[j] {
                same = false;
            }
            j = j + 1;
        }
        if same {
            assert(s@.subrange(i as int, i + p.len()) =~= p@);
            return true;
        }
        assert(s@.subrange(i as int, i + p.len()) != p@) by {
            let k = choose|k: int| 0 <= k < p.len() && s@[i + k] != p@[k];
            assert(s@.subrange(i as int, i + p.len())[k] != p@[k]);
        }
        i = i + 1;
    }
    false
}

/// The similarity of two lower-case character sequences: containment first, then the
/// ordered-character overlap.
pub fn similarity_of_lowered(a: &Vec<char>, b: &Vec<char>) -> (r: Ratio)
    ensures
        r.num as int == lowered_similarity(a@, b@).0,
        r.den as int == lowered_similarity(a@, b@).1,
        r.den > 0,
        r.num <= r.den,
        r.den <= usize::MAX,
{
    if contains_chars(b, a) {
        return Ratio { num: 4, den: 5 };
    }
    if contains_chars(a, b) {
        return Ratio { num: 3, den: 5 };
    }
    let mut common: usize = 0;
    let mut i: usize = 0;
    let mut j: usize = 0;
    while i < a.len() && j < b.len()
        invariant
            i <= a.len(),
            j <= b.len(),
            common + walk(a@, b@, i as int, j as int) == walk(a@, b@, 0, 0),
            common <= i,
        decreases (a.len() - i) + (b.len() - j),
    {
        if a[i] == b[j] {
            common = common + 1;
            i = i + 1;
            j = j + 1;
        } else if i < a.len() - 1 && a[i + 1] == b[j] {
            i = i + 1;
        } else if j < b.len() - 1 && a[i] == b[j + 1] {
            j = j + 1;
        } else {
            i = i + 1;
            j = j + 1;
        }
    }
    let max_len = if a.len() >= b.len() {
        a.len()
    } else {
        b.len()
    };
    if max_len == 0 {
        return Ratio { num: 0, den: 1 };
    }
    Ratio { num: common as u128, den: max_len as u128 }
}

/// The string-similarity heuristic, case-insensitive.
pub fn calculate_string_similarity(input: &str, target: &str) -> (r: Ratio)
    ensures
        r.num as int == string_similarity(input@, target@).0,
        r.den as int == string_similarity(input@, target@).1,
        r.den > 0,
        r.num <= r.den,
        r.den <= usize::MAX,
{
    let input_lower = crate::text::to_lower(input);
    let target_lower = crate::text::to_lower(target);
    let a = chars_of(input_lower.as_str());
    let b = chars_of(target_lower.as_str());
    similarity_of_lowered(&a, &b)
}

} // verus!
