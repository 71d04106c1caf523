use aide::similarity::similarity_of_lowered;
use aide::similarity::{calculate_string_similarity, compare_fractions, Ratio};

#[test]
fn substring_of_target_scores_four_fifths() {
    assert_eq!(calculate_string_similarity("DEP", "deploy"), Ratio { num: 4, den: 5 });
    assert_eq!(calculate_string_similarity("", "x"), Ratio { num: 4, den: 5 });
}

#[test]
fn target_inside_input_scores_three_fifths() {
    assert_eq!(calculate_string_similarity("deploy-prod-x", "Deploy"), Ratio { num: 3, den: 5 });
}

#[test]
fn ordered_overlap_over_longer_length() {
    assert_eq!(calculate_string_similarity("deploy-stagng", "deploy-staging"), Ratio { num: 13, den: 14 });
    assert_eq!(calculate_string_similarity("abcz", "abcdefg"), Ratio { num: 3, den: 7 });
    assert_eq!(calculate_string_similarity("xyz", "abc"), Ratio { num: 0, den: 3 });
}

#[test]
fn lookahead_on_target_side() {
    // "acd" against "abcd": a matches; c meets b, the target's next character is c.
    assert_eq!(calculate_string_similarity("acdx", "abcdy"), Ratio { num: 3, den: 5 });
}

#[test]
fn fractions_compare_exactly() {
    assert_eq!(compare_fractions(1, 3, 2, 6), 0);
    assert_eq!(compare_fractions(2, 3, 3, 5), 1);
    assert_eq!(compare_fractions(3, 5, 2, 3), -1);
    assert_eq!(compare_fractions(u128::MAX, u128::MAX - 1, u128::MAX - 1, u128::MAX - 2), -1);
    assert_eq!(compare_fractions(0, 7, 0, 9), 0);
}

#[test]
fn lowered_similarity_is_case_sensitive_on_its_inputs() {
    let a: Vec<char> = "dep".chars().collect();
    let b: Vec<char> = "deploy".chars().collect();
    let upper: Vec<char> = "DEPLOY".chars().collect();
    assert_eq!(similarity_of_lowered(&a, &b), Ratio { num: 4, den: 5 });
    assert_eq!(similarity_of_lowered(&a, &upper), Ratio { num: 0, den: 6 });
    assert_eq!(similarity_of_lowered(&vec![], &vec![]), Ratio { num: 4, den: 5 });
}
