use aide::command::{clean_command, next_query_step, QueryStep};
use aide::search::{best_fuzzy_match, command_search_text, pick_best};

#[test]
fn clean_command_trims_and_strips_prefixes() {
    assert_eq!(clean_command("  $ ls -la \n"), "ls -la");
    assert_eq!(clean_command("bash: echo hi"), "echo hi");
    assert_eq!(clean_command("$ # command: pwd"), "pwd");
    assert_eq!(clean_command("shell: x"), "x");
}

#[test]
fn clean_command_strips_quotes() {
    assert_eq!(clean_command("\"echo hi\""), "echo hi");
    assert_eq!(clean_command("'ls'"), "ls");
    assert_eq!(clean_command("\"'ls'\""), "ls");
    assert_eq!(clean_command("\"\""), "\"\"");
    assert_eq!(clean_command("> 'a"), "'a");
}

#[test]
fn pick_best_takes_first_highest() {
    assert_eq!(pick_best(&vec![None, Some(3), Some(7), Some(7), Some(1)]), Some(2));
    assert_eq!(pick_best(&vec![None, None]), None);
    assert_eq!(pick_best(&vec![]), None);
    assert_eq!(pick_best(&vec![Some(-5)]), Some(0));
}

#[test]
fn best_fuzzy_match_uses_the_skim_scores() {
    let choices = vec!["hello world".to_string(), "help".to_string()];
    assert_eq!(best_fuzzy_match(&choices, "hlp"), Some(1));
    assert_eq!(best_fuzzy_match(&choices, "zzz"), None);
}

#[test]
fn search_text_joins_name_and_input() {
    assert_eq!(command_search_text("git", "log"), "git log");
}

#[test]
fn interactive_steps() {
    assert!(matches!(next_query_step("  exit\n"), QueryStep::Exit));
    assert!(matches!(next_query_step("   \n"), QueryStep::Skip));
    assert!(matches!(next_query_step(" list files\n"), QueryStep::Ask(q) if q == "list files"));
    assert!(matches!(next_query_step("exit now"), QueryStep::Ask(q) if q == "exit now"));
}
