use notepad_core::search::{find_all_in_text, find_in_text};
use notepad_core::utf8::{char_to_byte_idx, chars_before, chars_of, width_of};

#[test]
fn find_all_skips_overlapping_matches() {
    assert_eq!(find_all_in_text("aaaa", "aa"), vec![0, 2]);
    assert_eq!(find_all_in_text("aaa", "aa"), vec![0]);
    assert_eq!(find_all_in_text("abc def abc", "abc"), vec![0, 8]);
    assert_eq!(find_all_in_text("abc", ""), Vec::<usize>::new());
    assert_eq!(find_all_in_text("", "abc"), Vec::<usize>::new());
    assert_eq!(find_all_in_text("ab", "abc"), Vec::<usize>::new());
    assert_eq!(find_all_in_text("abc", "abc"), vec![0]);
}

#[test]
fn find_in_text_finds_the_first_match_from_the_start_offset() {
    assert_eq!(find_in_text("abc def abc", "abc", 0), Some(0));
    assert_eq!(find_in_text("abc def abc", "abc", 1), Some(8));
    assert_eq!(find_in_text("abc def abc", "abc", 8), Some(8));
    assert_eq!(find_in_text("abc def abc", "abc", 9), None);
    assert_eq!(find_in_text("abc def abc", "abc", 900), None);
    assert_eq!(find_in_text("abc", "", 2), Some(2));
    assert_eq!(find_in_text("abc", "", 7), Some(3));
    assert_eq!(find_in_text("\u{1F600}a\u{1F600}b", "\u{1F600}b", 0), Some(2));
}

#[test]
fn byte_offsets_follow_utf8_widths() {
    assert_eq!(width_of('a'), 1);
    assert_eq!(width_of('\u{7F}'), 1);
    assert_eq!(width_of('\u{80}'), 2);
    assert_eq!(width_of('\u{7FF}'), 2);
    assert_eq!(width_of('\u{800}'), 3);
    assert_eq!(width_of('\u{FFFF}'), 3);
    assert_eq!(width_of('\u{10000}'), 4);
    assert_eq!(width_of('\u{10FFFF}'), 4);
    let text = "a\u{E9}\u{3042}\u{1F600}z";
    assert_eq!(char_to_byte_idx(text, 0), 0);
    assert_eq!(char_to_byte_idx(text, 1), 1);
    assert_eq!(char_to_byte_idx(text, 2), 3);
    assert_eq!(char_to_byte_idx(text, 3), 6);
    assert_eq!(char_to_byte_idx(text, 4), 10);
    assert_eq!(char_to_byte_idx(text, 5), 11);
    assert_eq!(char_to_byte_idx(text, 6), text.len());
    assert_eq!(char_to_byte_idx("", 3), 0);
    for (chars, (bytes, _)) in text.char_indices().enumerate() {
        assert_eq!(char_to_byte_idx(text, chars), bytes);
    }
}

#[test]
fn chars_before_counts_whole_characters() {
    let text = "a\u{E9}\u{3042}\u{1F600}z";
    assert_eq!(chars_before(text, 0), 0);
    assert_eq!(chars_before(text, 1), 1);
    assert_eq!(chars_before(text, 2), 1);
    assert_eq!(chars_before(text, 3), 2);
    assert_eq!(chars_before(text, 5), 2);
    assert_eq!(chars_before(text, 6), 3);
    assert_eq!(chars_before(text, 9), 3);
    assert_eq!(chars_before(text, 10), 4);
    assert_eq!(chars_before(text, 11), 5);
    assert_eq!(chars_before(text, 1000), 5);
    assert_eq!(chars_of(text), text.chars().collect::<Vec<char>>());
}
