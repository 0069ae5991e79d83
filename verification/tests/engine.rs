use notepad_core::document::Core;
use notepad_core::model::{Cursor, UNDO_LIMIT};
use notepad_core::search::find_all_in_text;

#[test]
fn cursor_for_char_clamps_empty_rope() {
    let core = Core::new();
    assert_eq!(core.cursor_for_char(0), Cursor { line: 0, col: 0 });
    assert_eq!(core.cursor_for_char(1), Cursor { line: 0, col: 0 });
}

#[test]
fn cursor_for_char_at_end_returns_end_position() {
    let mut core = Core::new();
    core.insert_str("a");
    assert_eq!(core.cursor_for_char(1), Cursor { line: 0, col: 1 });
}

#[test]
fn ime_cursor_char_with_preedit_on_empty_does_not_panic() {
    let mut core = Core::new();
    core.set_preedit("ã‚".to_string(), Some((3, 3)));
    let ime_idx = core.ime_cursor_char();
    assert_eq!(ime_idx, 1);
    assert_eq!(core.cursor_for_char(ime_idx), Cursor { line: 0, col: 0 });
}

#[test]
fn line_count_reflects_inserted_newlines() {
    let mut core = Core::new();
    assert_eq!(core.line_count(), 1);
    core.insert_str("a\nb\nc");
    assert_eq!(core.line_count(), 3);
}

#[test]
fn set_cursor_line_col_clamps_and_moves() {
    let mut core = Core::new();
    core.insert_str("a\nbc");
    assert!(core.set_cursor_line_col(1, 1, false));
    assert_eq!(core.cursor(), Cursor { line: 1, col: 1 });
    assert!(core.set_cursor_line_col(9, 9, false));
    assert_eq!(core.cursor(), Cursor { line: 1, col: 2 });
}

#[test]
fn find_next_wraps_and_skips_start() {
    let mut core = Core::new();
    core.insert_str("abc def abc");
    assert_eq!(core.find_next("abc", 0), Some(0));
    assert_eq!(core.find_next("abc", 1), Some(8));
    assert_eq!(core.find_next("abc", 9), Some(0));
}

#[test]
fn find_next_returns_none_on_empty_query() {
    let mut core = Core::new();
    core.insert_str("abc");
    assert_eq!(core.find_next("", 0), None);
}

#[test]
fn find_all_collects_matches() {
    let mut core = Core::new();
    core.insert_str("abc def abc abc");
    let text = core.text();
    assert_eq!(find_all_in_text(&text, "abc"), vec![0, 8, 12]);
}

#[test]
fn find_prev_wraps_to_last_match() {
    let mut core = Core::new();
    core.insert_str("abc def abc");
    assert_eq!(core.find_prev("abc", 0), Some(8));
    assert_eq!(core.find_prev("abc", 8), Some(0));
    assert_eq!(core.find_prev("abc", 9), Some(8));
}

#[test]
fn select_all_on_empty_is_noop() {
    let mut core = Core::new();
    assert!(!core.select_all());
    assert_eq!(core.selection_range(), None);
    assert_eq!(core.cursor_char(), 0);
}

#[test]
fn select_all_selects_full_range() {
    let mut core = Core::new();
    core.insert_str("a\nbc");
    assert!(core.select_all());
    let len = core.text().chars().count();
    assert_eq!(core.selection_range(), Some((0, len)));
    assert_eq!(core.cursor_char(), len);
    assert!(!core.select_all());
}

#[test]
fn selected_text_returns_selection_contents() {
    let mut core = Core::new();
    core.insert_str("ab\ncd");
    core.set_cursor_line_col(0, 1, false);
    core.set_cursor_line_col(1, 1, true);
    assert_eq!(core.selected_text(), Some("b\nc".to_string()));
}

#[test]
fn insert_str_replaces_selection() {
    let mut core = Core::new();
    core.insert_str("ab\ncd");
    core.set_cursor_line_col(0, 1, false);
    core.set_cursor_line_col(1, 1, true);
    core.insert_str("X");
    assert_eq!(core.text(), "aXd");
    assert_eq!(core.selection_range(), None);
}

#[test]
fn delete_selection_removes_selected_text() {
    let mut core = Core::new();
    core.insert_str("ab\ncd");
    core.set_cursor_line_col(0, 1, false);
    core.set_cursor_line_col(1, 1, true);
    assert!(core.delete_selection());
    assert_eq!(core.text(), "ad");
    assert_eq!(core.cursor_char(), 1);
    assert_eq!(core.selection_range(), None);
}

#[test]
fn undo_history_is_capped() {
    let mut core = Core::new();
    for _ in 0..101 {
        core.insert_str("a");
    }
    for _ in 0..UNDO_LIMIT {
        assert!(core.undo());
    }
    assert!(!core.undo());
    assert_eq!(core.text(), "a");
}

#[test]
fn line_len_chars_excludes_newline() {
    let mut core = Core::new();
    core.insert_str("ab\nc");
    assert_eq!(core.line_len_chars(0), 2);
    assert_eq!(core.line_len_chars(1), 1);
}

#[test]
fn new_document_is_empty_and_clean() {
    let core = Core::new();
    assert_eq!(core.text(), "");
    assert_eq!(core.cursor_char(), 0);
    assert_eq!(core.line_count(), 1);
    assert_eq!(core.line_len_chars(0), 0);
    assert!(!core.is_dirty());
    assert!(!core.has_selection());
    assert!(core.path().is_none());
    assert_eq!(core.display_text(), "");
}

#[test]
fn clamping_gives_the_end_of_the_last_line() {
    let mut core = Core::new();
    core.insert_str("ab\ncd\n");
    assert_eq!(core.line_count(), 3);
    assert_eq!(core.cursor_for_char(6), Cursor { line: 2, col: 0 });
    assert_eq!(core.cursor_for_char(600), Cursor { line: 2, col: 0 });
    assert_eq!(core.cursor_for_char(5), Cursor { line: 1, col: 2 });
    assert_eq!(core.cursor_for_char(3), Cursor { line: 1, col: 0 });
    assert_eq!(core.cursor_for_char(2), Cursor { line: 0, col: 2 });
    assert_eq!(core.line_len_chars(2), 0);
    assert_eq!(core.line_len_chars(50), 0);
}

#[test]
fn position_and_offset_are_inverse() {
    let mut core = Core::new();
    core.insert_str("one\n\nthree and more\nx");
    let len = core.text().chars().count();
    for offset in 0..=len {
        let at = core.cursor_for_char(offset);
        assert!(at.line < core.line_count());
        assert!(at.col <= core.line_len_chars(at.line));
        core.set_cursor_line_col(at.line, at.col, false);
        assert_eq!(core.cursor_char(), offset);
    }
}

#[test]
fn only_the_line_feed_ends_a_line() {
    let mut core = Core::new();
    core.insert_str("a\rb\u{2028}c\u{0B}d\r\ne");
    assert_eq!(core.line_count(), 2);
    assert_eq!(core.line_len_chars(0), 8);
    assert_eq!(core.cursor_for_char(9), Cursor { line: 1, col: 0 });
}

#[test]
fn undo_and_redo_are_inverse() {
    let mut core = Core::new();
    core.insert_str("abc");
    core.backspace();
    assert_eq!(core.text(), "ab");
    assert_eq!(core.cursor_char(), 2);
    assert!(core.undo());
    assert_eq!(core.text(), "abc");
    assert_eq!(core.cursor_char(), 3);
    assert!(core.undo());
    assert_eq!(core.text(), "");
    assert_eq!(core.cursor_char(), 0);
    assert!(!core.undo());
    assert_eq!(core.text(), "");
    assert!(core.redo());
    assert_eq!(core.text(), "abc");
    assert_eq!(core.cursor_char(), 3);
    assert!(core.redo());
    assert_eq!(core.text(), "ab");
    assert_eq!(core.cursor_char(), 2);
    assert!(!core.redo());
}

#[test]
fn undo_restores_a_replaced_selection() {
    let mut core = Core::new();
    core.insert_str("ab\ncd");
    core.set_cursor_line_col(0, 1, false);
    core.set_cursor_line_col(1, 1, true);
    core.insert_str("X");
    assert_eq!(core.text(), "aXd");
    assert_eq!(core.cursor_char(), 2);
    assert!(core.undo());
    assert_eq!(core.text(), "ab\ncd");
    assert_eq!(core.cursor_char(), 4);
    assert_eq!(core.selection_range(), None);
    assert!(core.redo());
    assert_eq!(core.text(), "aXd");
    assert_eq!(core.cursor_char(), 2);
}

#[test]
fn a_new_edit_discards_what_could_be_redone() {
    let mut core = Core::new();
    core.insert_str("a");
    core.insert_str("b");
    assert!(core.undo());
    core.insert_str("c");
    assert!(!core.redo());
    assert_eq!(core.text(), "ac");
}

#[test]
fn redo_after_a_full_history_keeps_the_cap() {
    let mut core = Core::new();
    for _ in 0..150 {
        core.insert_str("a");
    }
    for _ in 0..40 {
        assert!(core.undo());
    }
    for _ in 0..40 {
        assert!(core.redo());
    }
    assert!(!core.redo());
    let mut undone = 0;
    while core.undo() {
        undone += 1;
    }
    assert_eq!(undone, 100);
    assert_eq!(core.text().chars().count(), 50);
}

#[test]
fn backspace_removes_one_character_not_one_byte() {
    let mut core = Core::new();
    core.insert_str("a\u{3042}\u{1F600}");
    core.backspace();
    assert_eq!(core.text(), "a\u{3042}");
    core.backspace();
    assert_eq!(core.text(), "a");
    core.backspace();
    assert_eq!(core.text(), "");
    core.backspace();
    assert_eq!(core.text(), "");
    assert!(core.undo());
    assert!(core.undo());
    assert!(core.undo());
    assert_eq!(core.text(), "a\u{3042}\u{1F600}");
}

#[test]
fn backspace_at_the_start_leaves_a_composition() {
    let mut core = Core::new();
    core.set_preedit("x".to_string(), None);
    core.backspace();
    assert_eq!(core.display_text(), "x");
    assert!(!core.is_dirty());
    core.insert_str("ab");
    core.set_preedit("y".to_string(), None);
    core.backspace();
    assert_eq!(core.text(), "a");
    assert_eq!(core.display_text(), "a");
}

#[test]
fn operations_without_effect_record_nothing() {
    let mut core = Core::new();
    core.insert_str("");
    core.backspace();
    assert!(!core.delete_selection());
    assert!(!core.is_dirty());
    assert!(!core.undo());
    assert!(!core.redo());
}

#[test]
fn edits_mark_the_document_dirty_and_saving_clears_it() {
    let mut core = Core::new();
    core.insert_str("x");
    assert!(core.is_dirty());
    core.mark_saved(std::path::PathBuf::from("note.txt"), notepad_core::codec::TextEncoding::Utf16Le);
    assert!(!core.is_dirty());
    assert_eq!(core.encoding(), notepad_core::codec::TextEncoding::Utf16Le);
    assert_eq!(core.path(), Some(&std::path::PathBuf::from("note.txt")));
    assert!(core.undo());
    assert!(core.is_dirty());
    core.set_path(None);
    assert!(core.path().is_none());
    core.set_encoding(notepad_core::codec::TextEncoding::ShiftJis);
    assert_eq!(core.encoding(), notepad_core::codec::TextEncoding::ShiftJis);
}

#[test]
fn selection_follows_the_cursor_protocol() {
    let mut core = Core::new();
    core.insert_str("abcdef");
    core.set_cursor_line_col(0, 2, false);
    core.move_right(true);
    core.move_right(true);
    assert_eq!(core.selection_range(), Some((2, 4)));
    assert_eq!(core.selected_text(), Some("cd".to_string()));
    core.move_left(true);
    core.move_left(true);
    assert_eq!(core.selection_range(), None);
    assert!(!core.has_selection());
    core.move_left(true);
    assert_eq!(core.selection_range(), Some((1, 2)));
    core.move_right(false);
    assert_eq!(core.selection_range(), None);
    assert_eq!(core.cursor_char(), 2);
    assert!(!core.set_cursor_line_col(0, 2, false));
}

#[test]
fn movement_stops_at_the_ends() {
    let mut core = Core::new();
    core.insert_str("ab");
    core.move_right(false);
    assert_eq!(core.cursor_char(), 2);
    core.set_cursor_line_col(0, 0, false);
    core.move_left(false);
    assert_eq!(core.cursor_char(), 0);
    core.move_up(false);
    assert_eq!(core.cursor_char(), 0);
    core.move_down(false);
    assert_eq!(core.cursor_char(), 0);
}

#[test]
fn vertical_movement_keeps_the_column_where_the_line_allows() {
    let mut core = Core::new();
    core.insert_str("abcdef\nxy\nlonger line");
    core.set_cursor_line_col(0, 5, false);
    core.move_down(false);
    assert_eq!(core.cursor(), Cursor { line: 1, col: 2 });
    core.move_down(false);
    assert_eq!(core.cursor(), Cursor { line: 2, col: 2 });
    core.move_up(false);
    core.move_up(false);
    assert_eq!(core.cursor(), Cursor { line: 0, col: 2 });
    core.move_down(true);
    assert_eq!(core.selection_range(), Some((2, 9)));
}

#[test]
fn preedit_is_shown_but_not_stored() {
    let mut core = Core::new();
    core.insert_str("abcd");
    core.set_cursor_line_col(0, 2, false);
    core.set_preedit("X".to_string(), None);
    assert_eq!(core.display_text(), "abXcd");
    assert_eq!(core.text(), "abcd");
    assert_eq!(core.ime_cursor_char(), 2);
    core.set_preedit("\u{3042}\u{3044}".to_string(), Some((0, 3)));
    assert_eq!(core.display_text(), "ab\u{3042}\u{3044}cd");
    assert_eq!(core.ime_cursor_char(), 3);
    core.set_preedit("\u{3042}\u{3044}".to_string(), Some((0, 99)));
    assert_eq!(core.ime_cursor_char(), 4);
    core.set_preedit(String::new(), None);
    assert_eq!(core.display_text(), "abcd");
    core.set_preedit("Y".to_string(), None);
    core.clear_preedit();
    assert_eq!(core.display_text(), "abcd");
    core.set_preedit("Z".to_string(), None);
    core.commit_preedit("\u{3042}");
    assert_eq!(core.text(), "ab\u{3042}cd");
    assert_eq!(core.display_text(), "ab\u{3042}cd");
    assert_eq!(core.cursor_char(), 3);
    assert!(core.undo());
    assert_eq!(core.text(), "abcd");
}

#[test]
fn search_counts_characters_not_bytes() {
    let mut core = Core::new();
    core.insert_str("\u{3042}\u{3044}x\u{3042}\u{3044}");
    assert_eq!(core.find_next("\u{3044}", 0), Some(1));
    assert_eq!(core.find_next("\u{3044}", 2), Some(4));
    assert_eq!(core.find_next("\u{3044}", 5), Some(1));
    assert_eq!(core.find_next("\u{3044}", 500), Some(1));
    assert_eq!(core.find_prev("\u{3044}", 4), Some(1));
    assert_eq!(core.find_prev("\u{3044}", 1), Some(4));
    assert_eq!(core.find_next("q", 0), None);
    assert_eq!(core.find_prev("q", 3), None);
    assert_eq!(core.find_prev("", 3), None);
    assert_eq!(Core::new().find_next("a", 0), None);
    assert_eq!(Core::new().find_prev("a", 0), None);
}
