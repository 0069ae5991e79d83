use notepad_core::clipboard::{build_clipboard_nav_text, format_clipboard_item, ClipboardHistory};
use notepad_core::codec::TextEncoding;
use notepad_core::document::Core;
use notepad_core::error::CoreError;
use notepad_core::format::{
    build_line_numbers_text, build_search_bar_text, build_search_effective_query,
    current_match_index,
};
use notepad_core::model::Cursor;
use notepad_core::session::{
    build_search_nav_text, build_selection_spans, build_tab_bar, build_title, close_current_tab,
    doc_label, title_for,
    is_tab_index_key, label_for, move_cursor, request_search_update, switch_to_tab,
    tab_bar_text, tab_index_from_key, Direction, Document, OpenOutcome, SaveOutcome,
    SearchState,
};
use std::path::PathBuf;

#[test]
fn tab_index_from_key_maps_digits() {
    assert_eq!(tab_index_from_key("1"), Some(0));
    assert_eq!(tab_index_from_key("9"), Some(8));
    assert_eq!(tab_index_from_key("0"), None);
    assert_eq!(tab_index_from_key("a"), None);
}

#[test]
fn build_tab_bar_marks_active_and_dirty() {
    let mut doc1 = Document::new(1);
    doc1.core.set_path(Some(PathBuf::from("/tmp/foo.txt")));
    let mut doc2 = Document::new(2);
    doc2.core.insert_str("x");
    let documents = vec![doc1, doc2];
    let bar = build_tab_bar(&documents, 1);
    assert_eq!(bar, "1:foo.txt  [2:Untitled*]");
}

#[test]
fn build_line_numbers_text_pads_to_widest_digit() {
    let (text, digits) = build_line_numbers_text(12);
    assert_eq!(digits, 2);
    let lines: Vec<&str> = text.lines().collect();
    assert_eq!(lines[0], " 1");
    assert_eq!(lines[8], " 9");
    assert_eq!(lines[11], "12");
}

#[test]
fn build_search_bar_text_formats_query() {
    assert_eq!(build_search_bar_text("", None), "Search:");
    assert_eq!(build_search_bar_text("abc", None), "Search: abc");
    assert_eq!(build_search_bar_text("", Some("")), "Search: ");
    assert_eq!(build_search_bar_text("ab", Some("c")), "Search: abc");
}

#[test]
fn build_search_nav_text_shows_matches() {
    let mut core = Core::new();
    core.insert_str("abc def abc");
    let search_state = SearchState {
        query: "abc".to_string(),
        matches: vec![0, 8],
        pending: false,
    };
    let nav = build_search_nav_text(&core, &search_state, "abc", None);
    assert_eq!(
        nav,
        "Matches: 1/2 (Enter: next, Shift+Enter: prev)"
    );
    core.set_cursor_line_col(0, 9, false);
    let nav = build_search_nav_text(&core, &search_state, "abc", None);
    assert_eq!(
        nav,
        "Matches: 2/2 (Enter: next, Shift+Enter: prev)"
    );
}

#[test]
fn build_search_nav_text_shows_searching_when_pending() {
    let mut core = Core::new();
    core.insert_str("abc def abc");
    let search_state = SearchState {
        query: "abc".to_string(),
        matches: vec![],
        pending: true,
    };
    let nav = build_search_nav_text(&core, &search_state, "abc", None);
    assert_eq!(
        nav,
        "Matches: --/--  Searching... (Enter: next, Shift+Enter: prev)"
    );
}

#[test]
fn build_selection_spans_handles_multiline_selection() {
    let mut core = Core::new();
    core.insert_str("ab\ncd\nef");
    core.set_cursor_line_col(0, 1, false);
    core.set_cursor_line_col(1, 1, true);
    let spans = build_selection_spans(&core);
    assert_eq!(spans, vec![(0, 1, 2), (1, 0, 1)]);
}

#[test]
fn clipboard_history_pushes_and_trims() {
    let mut history = ClipboardHistory::new(3);
    assert!(!history.show());
    assert!(!history.push(""));
    assert!(history.push("a"));
    assert!(!history.push("a"));
    assert!(history.push("b"));
    assert!(history.push("c"));
    assert!(history.push("d"));
    assert_eq!(history.items, vec!["d", "c", "b"]);
    assert_eq!(history.selected_index, 0);
}

#[test]
fn clipboard_history_nav_text_formats_items() {
    let mut history = ClipboardHistory::new(100);
    history.push("hello world");
    history.push("\n");
    let long = "x".repeat(50);
    history.push(&long);
    assert!(history.show());
    history.move_down();
    let nav = build_clipboard_nav_text(&history).expect("nav text");
    let expected = format!(
        "Clipboard:\n  [1] {}\n> [2] \\n\n  [3] hello world",
        "x".repeat(40)
    );
    assert_eq!(nav, expected);
}

#[test]
fn clipboard_history_moves_selection_within_bounds() {
    let mut history = ClipboardHistory::new(10);
    history.push("first");
    history.push("second");
    history.show();
    history.move_down();
    history.move_down();
    assert_eq!(history.selected_index, 1);
    assert_eq!(history.window_start, 0);
    history.move_up();
    assert_eq!(history.selected_index, 0);
    assert!(!history.select_visible_index(5));
    assert!(history.select_visible_index(1));
}

#[test]
fn clipboard_history_scrolls_window() {
    let mut history = ClipboardHistory::new(10);
    history.push("one");
    history.push("two");
    history.push("three");
    history.push("four");
    history.push("five");
    history.show();
    assert_eq!(history.window_start, 0);
    history.move_down();
    history.move_down();
    assert_eq!(history.selected_index, 2);
    assert_eq!(history.window_start, 0);
    history.move_down();
    assert_eq!(history.selected_index, 3);
    assert_eq!(history.window_start, 1);
    history.move_down();
    assert_eq!(history.selected_index, 4);
    assert_eq!(history.window_start, 2);
    let nav = build_clipboard_nav_text(&history).expect("nav");
    assert!(nav.contains("> [3] one"));
}

#[test]
fn clipboard_panel_hides_and_reports_its_window() {
    let mut history = ClipboardHistory::new(0);
    assert!(history.push("dropped at once"));
    assert!(history.items.is_empty());
    assert_eq!(history.selected_index, 0);
    let mut history = ClipboardHistory::new(5);
    assert!(!history.is_visible());
    assert_eq!(history.visible_count(), 0);
    assert_eq!(history.selected_text(), None);
    assert_eq!(history.window_range(), 0..0);
    assert_eq!(build_clipboard_nav_text(&history), None);
    history.move_down();
    history.move_up();
    assert_eq!(history.selected_index, 0);
    for text in ["a", "b", "c", "d"] {
        assert!(history.push(text));
    }
    assert_eq!(history.visible_count(), 3);
    assert_eq!(build_clipboard_nav_text(&history), None);
    assert!(history.show());
    assert!(history.is_visible());
    assert_eq!(history.window_range(), 0..3);
    assert!(history.select_visible_index(2));
    assert_eq!(history.selected_text(), Some("b"));
    history.move_down();
    assert_eq!(history.selected_text(), Some("a"));
    assert_eq!(history.window_range(), 1..4);
    assert!(!history.select_visible_index(3));
    history.move_up();
    history.move_up();
    history.move_up();
    assert_eq!(history.selected_text(), Some("d"));
    assert_eq!(history.window_range(), 0..3);
    assert!(history.dismiss());
    assert!(!history.dismiss());
    assert_eq!(build_clipboard_nav_text(&history), None);
}

#[test]
fn clipboard_items_are_escaped_and_clipped() {
    assert_eq!(format_clipboard_item("a\nb", 40), "a\\nb");
    assert_eq!(format_clipboard_item("a\nb", 2), "a\\");
    assert_eq!(format_clipboard_item("a\nb", 0), "");
    assert_eq!(format_clipboard_item("\u{3042}\u{3044}\u{3046}", 2), "\u{3042}\u{3044}");
    assert_eq!(format_clipboard_item("", 5), "");
}

#[test]
fn line_numbers_cover_every_line() {
    assert_eq!(build_line_numbers_text(0), ("1".to_string(), 1));
    assert_eq!(build_line_numbers_text(1), ("1".to_string(), 1));
    assert_eq!(build_line_numbers_text(3), ("1\n2\n3".to_string(), 1));
    let (text, digits) = build_line_numbers_text(100);
    assert_eq!(digits, 3);
    assert!(text.starts_with("  1\n  2\n"));
    assert!(text.ends_with("\n 99\n100"));
    assert_eq!(text.lines().count(), 100);
}

#[test]
fn effective_query_joins_query_and_composition() {
    assert_eq!(build_search_effective_query("ab", None), "ab");
    assert_eq!(build_search_effective_query("ab", Some("c")), "abc");
    assert_eq!(build_search_effective_query("", Some("")), "");
}

#[test]
fn current_match_is_the_one_at_or_behind_the_cursor() {
    assert_eq!(current_match_index(&[], 0, 3), 0);
    assert_eq!(current_match_index(&[0, 8], 0, 0), 0);
    assert_eq!(current_match_index(&[0, 8], 0, 3), 1);
    assert_eq!(current_match_index(&[0, 8], 2, 3), 1);
    assert_eq!(current_match_index(&[0, 8], 3, 3), 2);
    assert_eq!(current_match_index(&[0, 8], 10, 3), 2);
    assert_eq!(current_match_index(&[0, 8], 11, 3), 1);
    assert_eq!(current_match_index(&[usize::MAX], usize::MAX, usize::MAX), 1);
}

#[test]
fn search_nav_text_without_a_query_counts_nothing() {
    let core = Core::new();
    let state = SearchState::default();
    assert_eq!(
        build_search_nav_text(&core, &state, "", None),
        "Matches: 0/0 (Enter: next, Shift+Enter: prev)"
    );
    assert_eq!(
        build_search_nav_text(&core, &state, "a", None),
        "Matches: --/--  Searching... (Enter: next, Shift+Enter: prev)"
    );
    let state = SearchState { query: "ab".to_string(), matches: vec![], pending: false };
    assert_eq!(
        build_search_nav_text(&core, &state, "a", Some("b")),
        "Matches: 0/0 (Enter: next, Shift+Enter: prev)"
    );
}

#[test]
fn selection_spans_leave_out_empty_lines() {
    let mut core = Core::new();
    assert_eq!(build_selection_spans(&core), vec![]);
    core.insert_str("ab\n\ncd");
    core.select_all();
    assert_eq!(build_selection_spans(&core), vec![(0, 0, 2), (2, 0, 2)]);
    core.set_cursor_line_col(2, 1, false);
    core.set_cursor_line_col(2, 2, true);
    assert_eq!(build_selection_spans(&core), vec![(2, 1, 2)]);
}

#[test]
fn tab_keys_are_the_digits_one_to_nine() {
    assert!(is_tab_index_key("1"));
    assert!(is_tab_index_key("9x"));
    assert!(!is_tab_index_key("0"));
    assert!(!is_tab_index_key(""));
    assert!(!is_tab_index_key("a1"));
    assert_eq!(tab_index_from_key(""), None);
    assert_eq!(tab_index_from_key("5"), Some(4));
}

#[test]
fn tab_labels_name_the_file_and_mark_dirt() {
    assert_eq!(label_for(None, false), "Untitled");
    assert_eq!(label_for(None, true), "Untitled*");
    assert_eq!(label_for(Some("a.txt"), true), "a.txt*");
    let mut doc = Document::new(7);
    assert_eq!(doc_label(&doc), "Untitled");
    doc.core.set_path(Some(PathBuf::from("dir/notes.md")));
    assert_eq!(doc_label(&doc), "notes.md");
    doc.core.insert_str("x");
    assert_eq!(doc_label(&doc), "notes.md*");
    assert_eq!(tab_bar_text(&vec![], 0), "");
    assert_eq!(tab_bar_text(&vec!["a".to_string()], 0), "[1:a]");
    assert_eq!(
        tab_bar_text(&vec!["a".to_string(), "b".to_string(), "c".to_string()], 5),
        "1:a  2:b  3:c"
    );
}

#[test]
fn switching_tabs_drops_what_is_under_way() {
    let mut documents = vec![Document::new(1), Document::new(2), Document::new(3)];
    documents[0].active_open_request = Some(4);
    documents[0].active_save_request = Some(5);
    documents[0].active_search_request = Some(6);
    documents[0].search_state.pending = true;
    documents[0].core.set_preedit("x".to_string(), None);
    let mut active = 0;
    switch_to_tab(&mut documents, &mut active, 0);
    assert_eq!(documents[0].active_open_request, Some(4));
    switch_to_tab(&mut documents, &mut active, 9);
    assert_eq!(active, 2);
    assert_eq!(documents[0].id, 1);
    assert_eq!(documents[0].active_open_request, None);
    assert_eq!(documents[0].active_save_request, None);
    assert_eq!(documents[0].active_search_request, None);
    assert!(!documents[0].search_state.pending);
    assert_eq!(documents[0].core.display_text(), "");
    switch_to_tab(&mut documents, &mut active, 1);
    assert_eq!(active, 1);
}

#[test]
fn closing_tabs_keeps_one_tab_open() {
    let mut documents = vec![Document::new(1), Document::new(2), Document::new(3)];
    let mut active = 2;
    close_current_tab(&mut documents, &mut active);
    assert_eq!(active, 1);
    assert_eq!(documents.len(), 2);
    active = 0;
    close_current_tab(&mut documents, &mut active);
    assert_eq!(active, 0);
    assert_eq!(documents.len(), 1);
    assert_eq!(documents[0].id, 2);
    documents[0].core.insert_str("text");
    documents[0].active_save_request = Some(1);
    close_current_tab(&mut documents, &mut active);
    assert_eq!(documents.len(), 1);
    assert_eq!(documents[0].id, 2);
    assert_eq!(documents[0].core.text(), "");
    assert_eq!(documents[0].active_save_request, None);
    let mut none: Vec<Document> = Vec::new();
    close_current_tab(&mut none, &mut active);
    assert!(none.is_empty());
}

#[test]
fn late_answers_are_dropped() {
    let mut doc = Document::new(1);
    let mut next_request_id = 1;
    let first = doc.begin_open(&mut next_request_id);
    let second = doc.begin_open(&mut next_request_id);
    assert_eq!((first, second, next_request_id), (1, 2, 3));
    let outcome = doc.finish_open(first, PathBuf::from("a.txt"), Ok(b"late".to_vec()));
    assert!(matches!(outcome, OpenOutcome::Stale));
    assert_eq!(doc.core.text(), "");
    assert_eq!(doc.active_open_request, Some(second));
    let outcome = doc.finish_open(second, PathBuf::from("b.txt"), Ok(b"in time".to_vec()));
    assert!(matches!(outcome, OpenOutcome::Loaded(TextEncoding::Utf8)));
    assert_eq!(doc.core.text(), "in time");
    assert_eq!(doc.core.path(), Some(&PathBuf::from("b.txt")));
    assert_eq!(doc.active_open_request, None);
    let outcome = doc.finish_open(second, PathBuf::from("c.txt"), Ok(b"again".to_vec()));
    assert!(matches!(outcome, OpenOutcome::Stale));

    let third = doc.begin_open(&mut next_request_id);
    let failure = CoreError::from_failure("read", notepad_core::error::IoFailure::NotFound, "gone");
    let outcome = doc.finish_open(third, PathBuf::from("d.txt"), Err(failure));
    assert!(matches!(outcome, OpenOutcome::Failed(CoreError::System(_))));
    assert_eq!(doc.core.text(), "in time");
    assert_eq!(doc.active_open_request, None);

    doc.core.insert_str("!");
    let save = doc.begin_save(&mut next_request_id);
    let outcome = doc.finish_save(save + 1, PathBuf::from("e.txt"), TextEncoding::Utf16Be, Ok(()));
    assert!(matches!(outcome, SaveOutcome::Stale));
    assert!(doc.core.is_dirty());
    let failure = CoreError::from_failure("write", notepad_core::error::IoFailure::TimedOut, "slow");
    let outcome = doc.finish_save(save, PathBuf::from("e.txt"), TextEncoding::Utf16Be, Err(failure));
    assert!(matches!(outcome, SaveOutcome::Failed(_)));
    assert!(doc.core.is_dirty());
    let save = doc.begin_save(&mut next_request_id);
    let outcome = doc.finish_save(save, PathBuf::from("e.txt"), TextEncoding::Utf16Be, Ok(()));
    assert!(matches!(outcome, SaveOutcome::Saved));
    assert!(!doc.core.is_dirty());
    assert_eq!(doc.core.encoding(), TextEncoding::Utf16Be);
    assert_eq!(doc.core.path(), Some(&PathBuf::from("e.txt")));
}

#[test]
fn searches_are_requested_only_when_needed() {
    let mut doc = Document::new(1);
    doc.core.insert_str("abc abc");
    let mut next_request_id = 10;
    let request = request_search_update(&mut doc, &mut next_request_id, "abc".to_string(), false)
        .expect("a new query is searched");
    assert_eq!(request.request_id, 10);
    assert_eq!(request.query, "abc");
    assert_eq!(request.text, "abc abc");
    assert_eq!(next_request_id, 11);
    assert!(doc.search_state.pending);
    assert_eq!(doc.active_search_request, Some(10));
    assert!(!doc.finish_search(9, "abc".to_string(), vec![1]));
    assert!(doc.search_state.pending);
    assert!(doc.finish_search(10, "abc".to_string(), vec![0, 4]));
    assert!(!doc.search_state.pending);
    assert_eq!(doc.search_state.matches, vec![0, 4]);
    assert_eq!(doc.active_search_request, None);
    assert!(request_search_update(&mut doc, &mut next_request_id, "abc".to_string(), false).is_none());
    assert_eq!(next_request_id, 11);
    assert_eq!(doc.search_state.matches, vec![0, 4]);
    assert!(request_search_update(&mut doc, &mut next_request_id, "abc".to_string(), true).is_some());
    assert_eq!(next_request_id, 12);
    assert!(doc.search_state.matches.is_empty());
    assert!(request_search_update(&mut doc, &mut next_request_id, String::new(), true).is_none());
    assert_eq!(doc.search_state.query, "");
    assert!(!doc.search_state.pending);
    assert_eq!(doc.active_search_request, None);
    assert!(!doc.finish_search(11, "abc".to_string(), vec![0]));
}

#[test]
fn move_cursor_reports_what_changed() {
    let mut core = Core::new();
    core.insert_str("ab\ncd");
    assert!(!move_cursor(&mut core, Direction::Right, false));
    assert!(!move_cursor(&mut core, Direction::Down, false));
    assert!(move_cursor(&mut core, Direction::Up, false));
    assert_eq!(core.cursor_char(), 2);
    assert!(move_cursor(&mut core, Direction::Left, true));
    assert_eq!(core.selection_range(), Some((1, 2)));
    assert!(move_cursor(&mut core, Direction::Down, false));
    assert_eq!(core.cursor_char(), 4);
    assert_eq!(core.selection_range(), None);
}

#[test]
fn window_title_names_file_encoding_and_position() {
    let mut core = Core::new();
    assert_eq!(build_title(&core), "Untitled  UTF-8 (Ln 1, Col 1)");
    core.insert_str("ab\ncde");
    assert_eq!(build_title(&core), "Untitled*  UTF-8 (Ln 2, Col 4)");
    core.mark_saved(PathBuf::from("/tmp/notes.txt"), TextEncoding::ShiftJis);
    assert_eq!(build_title(&core), "notes.txt  Shift_JIS (Ln 2, Col 4)");
    assert_eq!(
        title_for(Some("a"), true, TextEncoding::Utf16Be, Cursor { line: 9, col: usize::MAX }),
        format!("a*  UTF-16BE (Ln 10, Col {})", usize::MAX as u128 + 1)
    );
}
