use aide::interaction::shell_from_lowercase;
use aide::editor::TextEditor;
use aide::interaction::{
    add_source, apply_editor_key, is_valid_priority, is_valid_status, next_index, next_tab, popup_action,
    previous_index, previous_tab, shell_kind, AddSource, EditorKey, EditorOutcome, PopupAction, ShellKind,
};
use aide::models::PopupMode;

#[test]
fn tabs_wrap_around() {
    assert_eq!(next_tab(0), 1);
    assert_eq!(next_tab(2), 0);
    assert_eq!(previous_tab(0), 2);
    assert_eq!(previous_tab(1), 0);
}

#[test]
fn list_navigation_wraps() {
    assert_eq!(next_index(None, 3), 0);
    assert_eq!(next_index(Some(0), 3), 1);
    assert_eq!(next_index(Some(2), 3), 0);
    assert_eq!(next_index(Some(7), 3), 0);
    assert_eq!(previous_index(None, 3), 0);
    assert_eq!(previous_index(Some(0), 3), 2);
    assert_eq!(previous_index(Some(2), 3), 1);
    assert_eq!(next_index(None, 0), 0);
}

#[test]
fn popup_keys() {
    assert!(matches!(popup_action(PopupMode::TaskPriority, '4'), PopupAction::SetPriority(4)));
    assert!(matches!(popup_action(PopupMode::TaskPriority, '6'), PopupAction::Nothing));
    assert!(matches!(popup_action(PopupMode::TaskStatus, '2'), PopupAction::SetStatus(s) if s == "in_progress"));
    assert!(matches!(popup_action(PopupMode::TaskStatus, '3'), PopupAction::SetStatus(s) if s == "completed"));
    assert!(matches!(popup_action(PopupMode::TaskStatus, '1'), PopupAction::SetStatus(s) if s == "created"));
    assert!(matches!(popup_action(PopupMode::TaskStatus, 'x'), PopupAction::Nothing));
    assert!(matches!(popup_action(PopupMode::AideEdit, '\n'), PopupAction::SubmitAideEdit));
    assert!(matches!(popup_action(PopupMode::AideEdit, 'a'), PopupAction::AppendInput('a')));
    assert!(matches!(popup_action(PopupMode::AideEdit, 'é'), PopupAction::Nothing));
    assert!(matches!(popup_action(PopupMode::ConfigEdit, '\r'), PopupAction::SubmitConfigEdit));
    assert!(matches!(popup_action(PopupMode::ConfigEdit, '\x08'), PopupAction::Nothing));
    assert!(matches!(popup_action(PopupMode::ConfigEdit, 'z'), PopupAction::AppendConfigValue('z')));
    assert!(matches!(popup_action(PopupMode::Hidden, 'z'), PopupAction::Nothing));
}

#[test]
fn editor_keys() {
    let mut e = TextEditor::new("t".to_string(), "ab".to_string());
    assert_eq!(apply_editor_key(&mut e, EditorKey::End, false), EditorOutcome::Editing);
    assert_eq!(apply_editor_key(&mut e, EditorKey::Char('c'), false), EditorOutcome::Editing);
    assert_eq!(apply_editor_key(&mut e, EditorKey::Enter, false), EditorOutcome::Editing);
    assert_eq!(apply_editor_key(&mut e, EditorKey::Char('d'), false), EditorOutcome::Editing);
    assert_eq!(e.get_content(), "abc\nd");
    assert_eq!(apply_editor_key(&mut e, EditorKey::Backspace, false), EditorOutcome::Editing);
    assert_eq!(e.get_content(), "abc\n");
    assert_eq!(apply_editor_key(&mut e, EditorKey::Char('x'), true), EditorOutcome::Editing);
    assert_eq!(e.get_content(), "abc\n");
    assert_eq!(apply_editor_key(&mut e, EditorKey::Char('s'), true), EditorOutcome::SaveAndClose);
    assert_eq!(apply_editor_key(&mut e, EditorKey::Char('q'), true), EditorOutcome::CloseWithoutSaving);
    assert_eq!(apply_editor_key(&mut e, EditorKey::Esc, false), EditorOutcome::CloseWithoutSaving);
}

#[test]
fn status_and_priority_checks() {
    assert!(is_valid_status("created"));
    assert!(is_valid_status("in_progress"));
    assert!(is_valid_status("completed"));
    assert!(!is_valid_status("done"));
    assert!(!is_valid_status("Created"));
    assert!(is_valid_priority(1));
    assert!(is_valid_priority(5));
    assert!(!is_valid_priority(0));
    assert!(!is_valid_priority(6));
}

#[test]
fn add_needs_exactly_one_source() {
    assert!(matches!(add_source(Some("d".to_string()), None), AddSource::Inline(x) if x == "d"));
    assert!(matches!(add_source(None, Some("p".to_string())), AddSource::File(x) if x == "p"));
    assert!(matches!(add_source(Some("d".to_string()), Some("p".to_string())), AddSource::Conflict));
    assert!(matches!(add_source(None, None), AddSource::Missing));
}

#[test]
fn shell_names_in_any_case() {
    assert_eq!(shell_kind("BASH"), Some(ShellKind::Bash));
    assert_eq!(shell_kind("zsh"), Some(ShellKind::Zsh));
    assert_eq!(shell_kind("Fish"), Some(ShellKind::Fish));
    assert_eq!(shell_kind("elvish"), Some(ShellKind::Elvish));
    assert_eq!(shell_kind("PowerShell"), Some(ShellKind::PowerShell));
    assert_eq!(shell_kind("tcsh"), None);
}

#[test]
fn shell_from_lowercase_needs_lowercase() {
    assert_eq!(shell_from_lowercase("bash"), Some(ShellKind::Bash));
    assert_eq!(shell_from_lowercase("Bash"), None);
}
