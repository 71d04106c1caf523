use aide::protocol::is_affirmative;
use aide::protocol::{after_confirmation, decide, Intent, Resolution};
use aide::resolver::FuzzyMatchResult;
use aide::similarity::Ratio;

fn exact(name: &str) -> FuzzyMatchResult {
    FuzzyMatchResult { exact_match: true, suggested_name: Some(name.to_string()), score: Some(Ratio { num: 1, den: 1 }) }
}

fn suggestion(name: &str, num: u128, den: u128) -> FuzzyMatchResult {
    FuzzyMatchResult { exact_match: false, suggested_name: Some(name.to_string()), score: Some(Ratio { num, den }) }
}

fn nothing() -> FuzzyMatchResult {
    FuzzyMatchResult { exact_match: false, suggested_name: None, score: None }
}

#[test]
fn exact_match_proceeds_for_both_intents() {
    assert!(matches!(decide(Intent::Lookup, "task", &exact("task")), Resolution::Proceed(n) if n == "task"));
    assert!(matches!(decide(Intent::Create, "task", &exact("task")), Resolution::Proceed(n) if n == "task"));
}

#[test]
fn suggestion_at_threshold_asks_for_confirmation() {
    let r = decide(Intent::Lookup, "tsk", &suggestion("task", 3, 10));
    assert!(matches!(r, Resolution::Confirm(n) if n == "task"));
}

#[test]
fn suggestion_below_threshold_is_not_found_or_new() {
    assert!(matches!(decide(Intent::Lookup, "tsk", &suggestion("task", 29999, 100000)), Resolution::NotFound));
    assert!(matches!(
        decide(Intent::Create, "tsk", &suggestion("task", 29999, 100000)),
        Resolution::CreateNew(n) if n == "tsk"
    ));
}

#[test]
fn no_match_is_not_found_or_new() {
    assert!(matches!(decide(Intent::Lookup, "x", &nothing()), Resolution::NotFound));
    assert!(matches!(decide(Intent::Create, "x", &nothing()), Resolution::CreateNew(n) if n == "x"));
}

#[test]
fn confirmed_suggestion_proceeds_with_it() {
    let s = "task".to_string();
    assert!(matches!(after_confirmation(Intent::Lookup, "tsk", &s, true), Resolution::Proceed(n) if n == "task"));
    assert!(matches!(after_confirmation(Intent::Create, "tsk", &s, true), Resolution::Proceed(n) if n == "task"));
}

#[test]
fn declined_suggestion_cancels_or_creates() {
    let s = "task".to_string();
    assert!(matches!(after_confirmation(Intent::Lookup, "tsk", &s, false), Resolution::Cancelled));
    assert!(matches!(after_confirmation(Intent::Create, "tsk", &s, false), Resolution::CreateNew(n) if n == "tsk"));
}

#[test]
fn affirmative_answers() {
    assert!(is_affirmative("y\n"));
    assert!(is_affirmative("  YES "));
    assert!(is_affirmative("Yes"));
    assert!(!is_affirmative("no"));
    assert!(!is_affirmative("yess"));
    assert!(!is_affirmative(""));
}
