//! Decisions of the interactive interface and of the command line, apart from their I/O:
//! list navigation, popup and editor keys, and argument checks.

use vstd::prelude::*;
use vstd::string::StringExecFns;
use crate::editor::TextEditor;
use crate::models::PopupMode;
use crate::text::lower_of;

verus! {

/// The interface has three tabs: tasks, aides, configuration.
pub const TAB_COUNT: usize = 3;

/// The tab after `tab`, wrapping around.
pub fn next_tab(tab: usize) -> (r: usize)
    requires
        tab < TAB_COUNT,
    ensures
        r == (tab + 1) % (TAB_COUNT as int),
{
    (tab + 1) % TAB_COUNT
}

/// The tab before `tab`, wrapping around.
pub fn previous_tab(tab: usize) -> (r: usize)
    requires
        tab < TAB_COUNT,
    ensures
        r == if tab == 0 {
            TAB_COUNT - 1
        } else {
            tab - 1
        },
{
    if tab == 0 {
        TAB_COUNT - 1
    } else {
        tab - 1
    }
}

/// The list row selected after moving down from `selected` in a list of `len` rows: the
/// next row, or the first after the last; the first when nothing was selected.
pub fn next_index(selected: Option<usize>, len: usize) -> (r: usize)
    requires
        selected is Some ==> len > 0,
    ensures
        r == match selected {
            Some(i) => if i >= len - 1 {
                0
            } else {
                i + 1
            },
            None => 0,
        },
{
    match selected {
        Some(i) => {
            if i >= len - 1 {
                0
            } else {
                i + 1
            }
        },
        None => 0,
    }
}

/// The list row selected after moving up from `selected` in a list of `len` rows: the
/// previous row, or the last before the first; the first when nothing was selected.
pub fn previous_index(selected: Option<usize>, len: usize) -> (r: usize)
    requires
        selected is Some ==> len > 0,
    ensures
        r == match selected {
            Some(i) => if i == 0 {
                len - 1
            } else {
                i - 1
            },
            None => 0,
        },
{
    match selected {
        Some(i) => {
            if i == 0 {
                len - 1
            } else {
                i - 1
            }
        },
        None => 0,
    }
}

/// What a character typed into an open popup asks for.
pub enum PopupAction {
    /// Set the selected task's priority, then close the popup.
    SetPriority(u8),
    /// Set the selected task's status, then close the popup.
    SetStatus(String),
    /// Save the aide text typed so far.
    SubmitAideEdit,
    /// Save the configuration value typed so far.
    SubmitConfigEdit,
    /// Append the character to the aide text.
    AppendInput(char),
    /// Append the character to the configuration value.
    AppendConfigValue(char),
    /// Nothing happens.
    Nothing,
}

/// A character that a text popup accepts: ASCII, and not a backspace.
pub open spec fn accepted_in_text(c: char) -> bool {
    (c as u32) < 128 && c != '\x08'
}

/// The action of the character `c` typed into the popup `mode`: a digit from 1 to 5 sets the
/// priority; 1, 2, 3 set the status to created, in progress, completed; in a text popup a line
/// end submits and an accepted character is appended.
pub fn popup_action(mode: PopupMode, c: char) -> (r: PopupAction)
    ensures
        match mode {
            PopupMode::TaskPriority => if '1' <= c <= '5' {
                r matches PopupAction::SetPriority(p) && p == c as u32 - '0' as u32
            } else {
                r is Nothing
            },
            PopupMode::TaskStatus => if c == '1' {
                r matches PopupAction::SetStatus(s) && s@ == "created"@
            } else if c == '2' {
                r matches PopupAction::SetStatus(s) && s@ == "in_progress"@
            } else if c == '3' {
                r matches PopupAction::SetStatus(s) && s@ == "completed"@
            } else {
                r is Nothing
            },
            PopupMode::AideEdit => if c == '\n' || c == '\r' {
                r is SubmitAideEdit
            } else if accepted_in_text(c) {
                r == PopupAction::AppendInput(c)
            } else {
                r is Nothing
            },
            PopupMode::ConfigEdit => if c == '\n' || c == '\r' {
                r is SubmitConfigEdit
            } else if accepted_in_text(c) {
                r == PopupAction::AppendConfigValue(c)
            } else {
                r is Nothing
            },
            _ => r is Nothing,
        },
{
    match mode {
        PopupMode::TaskPriority => {
            if '1' <= c && c <= '5' {
                PopupAction::SetPriority((c as u32 - '0' as u32) as u8)
            } else {
                PopupAction::Nothing
            }
        },
        PopupMode::TaskStatus => {
            if c == '1' {
                PopupAction::SetStatus(String::from_str("created"))
            } else if c == '2' {
                PopupAction::SetStatus(String::from_str("in_progress"))
            } else if c == '3' {
                PopupAction::SetStatus(String::from_str("completed"))
            } else {
                PopupAction::Nothing
            }
        },
        PopupMode::AideEdit => {
            if c == '\n' || c == '\r' {
                PopupAction::SubmitAideEdit
            } else if (c as u32) < 128 && c != '\x08' {
                PopupAction::AppendInput(c)
            } else {
                PopupAction::Nothing
            }
        },
        PopupMode::ConfigEdit => {
            if c == '\n' || c == '\r' {
                PopupAction::SubmitConfigEdit
            } else if (c as u32) < 128 && c != '\x08' {
                PopupAction::AppendConfigValue(c)
            } else {
                PopupAction::Nothing
            }
        },
        _ => PopupAction::Nothing,
    }
}

/// A key pressed in the text editor.
#[derive(Clone, Copy, Debug, PartialEq, Eq, Structural)]
pub enum EditorKey {
    Char(char),
    Enter,
    Backspace,
    Left,
    Right,
    Up,
    Down,
    PageUp,
    PageDown,
    Home,
    End,
    Esc,
    Other,
}

/// What the editor's owner does after a key.
#[derive(Clone, Copy, Debug, PartialEq, Eq, Structural)]
pub enum EditorOutcome {
    /// Keep editing.
    Editing,
    /// Save the text if it changed, then close.
    SaveAndClose,
    /// Close without saving.
    CloseWithoutSaving,
}

/// Applies a key to the editor: Control-S saves and closes, Control-Q and Escape close
/// without saving, other Control chords do nothing, a character is inserted, and the other
/// keys edit or move as named (a page is the default visible height).
pub fn apply_editor_key(editor: &mut TextEditor, key: EditorKey, control: bool) -> (r: EditorOutcome)
    requires
        old(editor).wf(),
    ensures
        final(editor).wf(),
        r == match key {
            EditorKey::Char(c) => if control && c == 's' {
                EditorOutcome::SaveAndClose
            } else if control && c == 'q' {
                EditorOutcome::CloseWithoutSaving
            } else {
                EditorOutcome::Editing
            },
            EditorKey::Esc => EditorOutcome::CloseWithoutSaving,
            _ => EditorOutcome::Editing,
        },
        r != EditorOutcome::Editing || (key matches EditorKey::Char(_) && control) || key is Other
            ==> *final(editor) == *old(editor),
        match key {
            EditorKey::Char(c) => !control ==> final(editor).lines() == old(editor).lines().update(
                old(editor).cursor_row as int,
                old(editor).lines()[old(editor).cursor_row as int].insert(old(editor).cursor_col as int, c),
            ) && final(editor).cursor_col == old(editor).cursor_col + 1,
            _ => true,
        },
        key is Enter ==> final(editor).lines().len() == old(editor).lines().len() + 1 && final(editor).cursor_row
            == old(editor).cursor_row + 1,
        !(key matches EditorKey::Char(_)) && !(key is Enter) && !(key is Backspace) ==> final(editor).same_text(
            old(editor),
        ),
{
    match key {
        EditorKey::Char(c) => {
            if control {
                if c == 's' {
                    EditorOutcome::SaveAndClose
                } else if c == 'q' {
                    EditorOutcome::CloseWithoutSaving
                } else {
                    EditorOutcome::Editing
                }
            } else {
                editor.insert_char(c);
                EditorOutcome::Editing
            }
        },
        EditorKey::Enter => {
            editor.insert_newline();
            EditorOutcome::Editing
        },
        EditorKey::Backspace => {
            editor.delete_char();
            EditorOutcome::Editing
        },
        EditorKey::Left => {
            editor.move_cursor_left();
            EditorOutcome::Editing
        },
        EditorKey::Right => {
            editor.move_cursor_right();
            EditorOutcome::Editing
        },
        EditorKey::Up => {
            editor.move_cursor_up();
            EditorOutcome::Editing
        },
        EditorKey::Down => {
            editor.move_cursor_down();
            EditorOutcome::Editing
        },
        EditorKey::PageUp => {
            editor.page_up(crate::editor::DEFAULT_VISIBLE_HEIGHT);
            EditorOutcome::Editing
        },
        EditorKey::PageDown => {
            editor.page_down(crate::editor::DEFAULT_VISIBLE_HEIGHT);
            EditorOutcome::Editing
        },
        EditorKey::Home => {
            editor.move_to_start_of_line();
            EditorOutcome::Editing
        },
        EditorKey::End => {
            editor.move_to_end_of_line();
            EditorOutcome::Editing
        },
        EditorKey::Esc => EditorOutcome::CloseWithoutSaving,
        EditorKey::Other => EditorOutcome::Editing,
    }
}

/// The statuses a task can have.
pub open spec fn valid_status(s: Seq<char>) -> bool {
    s == "created"@ || s == "in_progress"@ || s == "completed"@
}

/// Whether `status` is one of created, in_progress, completed.
pub fn is_valid_status(status: &str) -> (r: bool)
    ensures
        r == valid_status(status@),
{
    let s = String::from_str(status);
    s == String::from_str("created") || s == String::from_str("in_progress") || s == String::from_str(
        "completed",
    )
}

/// Whether `priority` lies between 1 (highest) and 5 (lowest).
pub fn is_valid_priority(priority: u8) -> (r: bool)
    ensures
        r == (1 <= priority <= 5),
{
    1 <= priority && priority <= 5
}

/// Where the data of an `add` command comes from.
pub enum AddSource {
    Inline(String),
    File(String),
    /// Both inline data and a path were given.
    Conflict,
    /// Neither was given.
    Missing,
}

/// Exactly one of inline data and a file path must be given.
pub fn add_source(data: Option<String>, path: Option<String>) -> (r: AddSource)
    ensures
        match (data, path) {
            (Some(d), None) => r matches AddSource::Inline(x) && x == d,
            (None, Some(p)) => r matches AddSource::File(x) && x == p,
            (Some(_), Some(_)) => r is Conflict,
            (None, None) => r is Missing,
        },
{
    match (data, path) {
        (Some(d), None) => AddSource::Inline(d),
        (None, Some(p)) => AddSource::File(p),
        (Some(_), Some(_)) => AddSource::Conflict,
        (None, None) => AddSource::Missing,
    }
}

/// Shells for which completions can be generated.
#[derive(Clone, Copy, Debug, PartialEq, Eq, Structural)]
pub enum ShellKind {
    Bash,
    Zsh,
    Fish,
    Elvish,
    PowerShell,
}

/// The shell named by a lower-case name.
pub open spec fn shell_named(s: Seq<char>) -> Option<ShellKind> {
    if s == "bash"@ {
        Some(ShellKind::Bash)
    } else if s == "zsh"@ {
        Some(ShellKind::Zsh)
    } else if s == "fish"@ {
        Some(ShellKind::Fish)
    } else if s == "elvish"@ {
        Some(ShellKind::Elvish)
    } else if s == "powershell"@ {
        Some(ShellKind::PowerShell)
    } else {
        None
    }
}

/// The shell with the lower-case name `name`.
pub fn shell_from_lowercase(name: &str) -> (r: Option<ShellKind>)
    ensures
        r == shell_named(name@),
{
    let s = String::from_str(name);
    if s == String::from_str("bash") {
        Some(ShellKind::Bash)
    } else if s == String::from_str("zsh") {
        Some(ShellKind::Zsh)
    } else if s == String::from_str("fish") {
        Some(ShellKind::Fish)
    } else if s == String::from_str("elvish") {
        Some(ShellKind::Elvish)
    } else if s == String::from_str("powershell") {
        Some(ShellKind::PowerShell)
    } else {
        None
    }
}

/// The shell named by `name`, in any case.
pub fn shell_kind(name: &str) -> (r: Option<ShellKind>)
    ensures
        r == shell_named(lower_of(name@)),
{
    let s = crate::text::to_lower(name);
    shell_from_lowercase(s.as_str())
}

} // verus!
