use aide::editor::{split_lines, TextEditor};

fn lines(xs: &[&str]) -> Vec<String> {
    xs.iter().map(|s| s.to_string()).collect()
}

#[test]
fn new_splits_lines_and_starts_clean() {
    let e = TextEditor::new("t".to_string(), "a\nb\r\nc\n".to_string());
    assert_eq!(e.content, lines(&["a", "b", "c"]));
    assert_eq!((e.cursor_row, e.cursor_col, e.scroll_offset), (0, 0, 0));
    assert!(!e.is_dirty);
    assert_eq!(e.title, "t");
    let empty = TextEditor::new("t".to_string(), String::new());
    assert_eq!(empty.content, lines(&[""]));
}

#[test]
fn split_lines_keeps_inner_empty_lines() {
    assert_eq!(split_lines("x\n\ny"), lines(&["x", "", "y"]));
    assert_eq!(split_lines("\n"), lines(&[""]));
    assert_eq!(split_lines("a\r"), lines(&["a\r"]));
}

#[test]
fn insert_and_delete_characters() {
    let mut e = TextEditor::new("t".to_string(), "ac".to_string());
    e.move_cursor_right();
    e.insert_char('b');
    assert_eq!(e.content, lines(&["abc"]));
    assert_eq!(e.cursor_col, 2);
    assert!(e.is_dirty);
    e.delete_char();
    assert_eq!(e.content, lines(&["ac"]));
    assert_eq!(e.cursor_col, 1);
}

#[test]
fn insert_counts_characters_not_bytes() {
    let mut e = TextEditor::new("t".to_string(), "éa".to_string());
    e.move_cursor_right();
    e.insert_char('ü');
    assert_eq!(e.content, lines(&["éüa"]));
    assert_eq!(e.get_content(), "éüa");
}

#[test]
fn newline_splits_and_delete_joins() {
    let mut e = TextEditor::new("t".to_string(), "hello".to_string());
    e.move_cursor_right();
    e.move_cursor_right();
    e.insert_newline();
    assert_eq!(e.content, lines(&["he", "llo"]));
    assert_eq!((e.cursor_row, e.cursor_col), (1, 0));
    e.delete_char();
    assert_eq!(e.content, lines(&["hello"]));
    assert_eq!((e.cursor_row, e.cursor_col), (0, 2));
}

#[test]
fn delete_at_very_start_changes_nothing() {
    let mut e = TextEditor::new("t".to_string(), "x".to_string());
    e.delete_char();
    assert_eq!(e.content, lines(&["x"]));
    assert!(!e.is_dirty);
}

#[test]
fn cursor_moves_across_lines() {
    let mut e = TextEditor::new("t".to_string(), "ab\ncdef\ng".to_string());
    e.move_to_end_of_line();
    assert_eq!(e.cursor_col, 2);
    e.move_cursor_right();
    assert_eq!((e.cursor_row, e.cursor_col), (1, 0));
    e.move_cursor_left();
    assert_eq!((e.cursor_row, e.cursor_col), (0, 2));
    e.move_cursor_down();
    e.move_to_end_of_line();
    assert_eq!((e.cursor_row, e.cursor_col), (1, 4));
    e.move_cursor_down();
    assert_eq!((e.cursor_row, e.cursor_col), (2, 1));
    e.move_cursor_down();
    assert_eq!((e.cursor_row, e.cursor_col), (2, 1));
    e.move_cursor_up();
    assert_eq!((e.cursor_row, e.cursor_col), (1, 1));
    e.move_to_start_of_line();
    assert_eq!(e.cursor_col, 0);
    e.move_cursor_up();
    e.move_cursor_up();
    assert_eq!((e.cursor_row, e.cursor_col), (0, 0));
    e.move_cursor_left();
    assert_eq!((e.cursor_row, e.cursor_col), (0, 0));
}

#[test]
fn paging_and_scrolling() {
    let text: Vec<String> = (0..50).map(|i| format!("line {}", i)).collect();
    let mut e = TextEditor::new("t".to_string(), text.join("\n"));
    assert_eq!(e.content.len(), 50);
    e.page_down(30);
    assert_eq!(e.cursor_row, 30);
    assert_eq!(e.scroll_offset, 11);
    e.page_down(30);
    assert_eq!(e.cursor_row, 49);
    assert_eq!(e.scroll_offset, 30);
    e.page_up(10);
    assert_eq!(e.cursor_row, 39);
    assert_eq!(e.scroll_offset, 30);
    e.page_up(100);
    assert_eq!(e.cursor_row, 0);
    assert_eq!(e.scroll_offset, 0);
    e.scroll_down(45);
    e.scroll_down(45);
    e.scroll_down(45);
    e.scroll_down(45);
    e.scroll_down(45);
    e.scroll_down(45);
    assert_eq!(e.scroll_offset, 5);
    e.scroll_up();
    assert_eq!(e.scroll_offset, 4);
    e.adjust_scroll_with_height(3);
    assert_eq!(e.scroll_offset, 0);
    e.cursor_row = 10;
    e.adjust_scroll_with_height(3);
    assert_eq!(e.scroll_offset, 8);
}

#[test]
fn content_joins_lines() {
    let e = TextEditor::new("t".to_string(), "a\nb\n".to_string());
    assert_eq!(e.get_content(), "a\nb");
}
