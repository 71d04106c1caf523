use aide::index::{build_tfidf_index, calculate_tf, TermCount, TermWeight, TfIdfIndex};
use aide::resolver::{find_fuzzy_match_in_index, query_vector, FuzzyMatchResult, COSINE_SCALE};
use aide::similarity::Ratio;
use aide::text::tokenize;

fn names(xs: &[&str]) -> Vec<String> {
    xs.iter().map(|s| s.to_string()).collect()
}

fn weight(w: &TermWeight) -> f64 {
    let tf = w.count as f64 / w.doc_len as f64;
    let idf = (w.total_docs as f64 / (w.doc_freq as f64 + 1.0)).ln();
    tf * idf.powi(w.idf_power as i32)
}

fn cosine(a: &[TermWeight], b: &[TermWeight]) -> f64 {
    let mut dot = 0.0;
    let mut n1 = 0.0;
    let mut n2 = 0.0;
    for x in a {
        let wx = weight(x);
        if let Some(y) = b.iter().find(|y| y.word_id == x.word_id) {
            dot += wx * weight(y);
        }
        n1 += wx * wx;
    }
    for y in b {
        n2 += weight(y) * weight(y);
    }
    if n1 == 0.0 || n2 == 0.0 {
        0.0
    } else {
        dot / (n1.sqrt() * n2.sqrt())
    }
}

fn cosine_scores(index: &TfIdfIndex, input: &str) -> Vec<i64> {
    let q = query_vector(input, index);
    let s = COSINE_SCALE as f64;
    index
        .tfidf_vectors
        .iter()
        .map(|v| (cosine(&q, v) * s).round().clamp(-s, s) as i64)
        .collect()
}

fn resolve(index: &TfIdfIndex, input: &str) -> FuzzyMatchResult {
    let scores = cosine_scores(index, input);
    find_fuzzy_match_in_index(input, index, &scores)
}

fn score_value(r: &Ratio) -> f64 {
    r.num as f64 / r.den as f64
}

#[test]
fn tokenize_lowercases_and_keeps_word_characters() {
    assert_eq!(tokenize("Deploy-Staging  fix_it!\tNOW"), names(&["deploystaging", "fix_it", "now"]));
    assert_eq!(tokenize("  -- !! "), Vec::<String>::new());
    assert_eq!(tokenize(""), Vec::<String>::new());
}

#[test]
fn calculate_tf_counts_in_first_occurrence_order() {
    let vocab = names(&["b", "a"]);
    let toks = names(&["a", "b", "a", "c"]);
    assert_eq!(
        calculate_tf(&toks, &vocab),
        vec![TermCount { word_id: 1, count: 2 }, TermCount { word_id: 0, count: 1 }]
    );
}

#[test]
fn build_counts_documents_and_frequencies() {
    let idx = build_tfidf_index(names(&["fix login bug", "fix ui", "write docs"]));
    assert_eq!(idx.total_docs, 3);
    assert_eq!(idx.vocabulary, names(&["fix", "login", "bug", "ui", "write", "docs"]));
    assert_eq!(idx.document_frequencies, vec![2, 1, 1, 1, 1, 1]);
    assert_eq!(idx.tfidf_vectors.len(), 3);
    assert_eq!(
        idx.tfidf_vectors[1],
        vec![
            TermWeight { word_id: 0, count: 1, doc_len: 2, total_docs: 3, doc_freq: 2, idf_power: 1 },
            TermWeight { word_id: 3, count: 1, doc_len: 2, total_docs: 3, doc_freq: 1, idf_power: 1 },
        ]
    );
}

#[test]
fn build_of_empty_list_is_empty() {
    let idx = build_tfidf_index(Vec::new());
    assert_eq!(idx.total_docs, 0);
    assert!(idx.vocabulary.is_empty());
    assert!(idx.entity_names.is_empty());
}

#[test]
fn build_then_every_name_resolves_exactly() {
    let list = names(&["alpha", "beta gamma", "Delta"]);
    let idx = build_tfidf_index(list.clone());
    assert_eq!(idx.total_docs, list.len());
    for n in &list {
        let r = resolve(&idx, n);
        assert!(r.exact_match);
        assert_eq!(r.suggested_name.as_deref(), Some(n.as_str()));
        assert_eq!(r.score, Some(Ratio { num: 1, den: 1 }));
    }
}

#[test]
fn added_name_resolves_exactly_without_rebuild() {
    let mut idx = build_tfidf_index(names(&["alpha"]));
    idx.add_entity("brand new".to_string());
    assert!(resolve(&idx, "brand new").exact_match);
    assert_eq!(idx.total_docs, 2);
}

#[test]
fn add_entity_rescales_new_words_and_keeps_old_vectors() {
    let mut idx = build_tfidf_index(names(&["fix bug"]));
    let before = idx.tfidf_vectors[0].clone();
    idx.add_entity("fix ui".to_string());
    assert_eq!(idx.vocabulary, names(&["fix", "bug", "ui"]));
    assert_eq!(idx.document_frequencies, vec![2, 1, 1]);
    assert_eq!(idx.tfidf_vectors[0], before);
    assert_eq!(
        idx.tfidf_vectors[1],
        vec![
            TermWeight { word_id: 0, count: 1, doc_len: 2, total_docs: 2, doc_freq: 2, idf_power: 1 },
            TermWeight { word_id: 2, count: 1, doc_len: 2, total_docs: 2, doc_freq: 1, idf_power: 2 },
        ]
    );
}

#[test]
fn add_entity_twice_equals_once() {
    let mut idx = build_tfidf_index(names(&["alpha"]));
    idx.add_entity("beta".to_string());
    let names_once = idx.entity_names.clone();
    let vectors_once = idx.tfidf_vectors.clone();
    let df_once = idx.document_frequencies.clone();
    idx.add_entity("beta".to_string());
    assert_eq!(idx.entity_names, names_once);
    assert_eq!(idx.tfidf_vectors, vectors_once);
    assert_eq!(idx.document_frequencies, df_once);
    assert_eq!(idx.total_docs, 2);
}

#[test]
fn remove_entity_reports_once_and_forgets_the_name() {
    let mut idx = build_tfidf_index(names(&["fix bug", "fix ui", "docs"]));
    assert!(idx.remove_entity("fix ui"));
    assert!(!idx.remove_entity("fix ui"));
    assert!(!idx.remove_entity("never there"));
    assert!(!resolve(&idx, "fix ui").exact_match);
    assert_eq!(idx.entity_names, names(&["fix bug", "docs"]));
    assert_eq!(idx.total_docs, 2);
    assert_eq!(idx.vocabulary, names(&["fix", "bug", "ui", "docs"]));
    assert_eq!(idx.document_frequencies, vec![1, 1, 0, 1]);
    assert_eq!(
        idx.tfidf_vectors[0],
        vec![
            TermWeight { word_id: 0, count: 1, doc_len: 2, total_docs: 2, doc_freq: 1, idf_power: 1 },
            TermWeight { word_id: 1, count: 1, doc_len: 2, total_docs: 2, doc_freq: 1, idf_power: 1 },
        ]
    );
}

#[test]
fn suggestion_for_misspelled_name() {
    let idx = build_tfidf_index(names(&["deploy-staging", "deploy-prod", "fix-login-bug"]));
    let r = resolve(&idx, "deploy-stagng");
    assert!(!r.exact_match);
    assert_eq!(r.suggested_name.as_deref(), Some("deploy-staging"));
    let s = r.score.expect("a score comes with the suggestion");
    assert!(score_value(&s) >= 0.3);
    let none = resolve(&idx, "zzz");
    assert!(!none.exact_match);
    assert_eq!(none.suggested_name, None);
    assert_eq!(none.score, None);
}

#[test]
fn empty_index_gives_no_match() {
    let idx = build_tfidf_index(Vec::new());
    let r = resolve(&idx, "anything");
    assert!(!r.exact_match);
    assert_eq!(r.suggested_name, None);
    assert_eq!(r.score, None);
}

#[test]
fn score_exactly_at_threshold_is_suggested() {
    // "abcz" against "abcdefg": three ordered matches over seven characters, no shared token.
    let idx = build_tfidf_index(names(&["abcdefg"]));
    let scores = cosine_scores(&idx, "abcz");
    assert_eq!(scores, vec![0]);
    let r = find_fuzzy_match_in_index("abcz", &idx, &scores);
    assert_eq!(r.suggested_name.as_deref(), Some("abcdefg"));
    let s = r.score.unwrap();
    assert_eq!(s.num * 10, s.den * 3);
}

#[test]
fn score_just_below_threshold_is_not_suggested() {
    let idx = build_tfidf_index(names(&["abcdefg"]));
    let r = find_fuzzy_match_in_index("abcz", &idx, &vec![-1]);
    assert!(!r.exact_match);
    assert_eq!(r.suggested_name, None);
    assert_eq!(r.score, None);
}

#[test]
fn equal_scores_suggest_the_earlier_name() {
    let idx = build_tfidf_index(names(&["xab", "yab"]));
    let r = find_fuzzy_match_in_index("ab", &idx, &vec![0, 0]);
    assert_eq!(r.suggested_name.as_deref(), Some("xab"));
    assert_eq!(r.score, Some(Ratio { num: 7 * 1_000_000_000 * 4, den: 10 * 1_000_000_000 * 5 }));
}

#[test]
fn higher_score_wins_over_order() {
    let idx = build_tfidf_index(names(&["xab", "yab"]));
    let r = find_fuzzy_match_in_index("ab", &idx, &vec![0, 500_000_000]);
    assert_eq!(r.suggested_name.as_deref(), Some("yab"));
}

#[test]
fn rebuilt_index_agrees_on_exact_matches() {
    let mut idx = build_tfidf_index(names(&["one", "two"]));
    idx.add_entity("three".to_string());
    assert!(idx.remove_entity("one"));
    idx.add_entity("four".to_string());
    let fresh = build_tfidf_index(idx.entity_names.clone());
    for q in ["one", "two", "three", "four", "five"] {
        assert_eq!(resolve(&idx, q).exact_match, resolve(&fresh, q).exact_match);
    }
}

#[test]
fn query_vector_uses_current_statistics() {
    let idx = build_tfidf_index(names(&["fix bug", "fix ui"]));
    let q = query_vector("Fix it", &idx);
    assert_eq!(
        q,
        vec![TermWeight { word_id: 0, count: 1, doc_len: 2, total_docs: 2, doc_freq: 2, idf_power: 1 }]
    );
}
