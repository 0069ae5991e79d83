use notepad_core::document::Core;
use notepad_core::keys::{
    clipboard_command_for_character, clipboard_command_for_named, command_for_character,
    command_for_named, document_accepts_text, is_ctrl_v, search_accepts_text,
    search_command_for, ClipboardCommand, Command, KeyName, Modifiers, SearchCommand,
};
use notepad_core::session::{jump_to_match, Direction};

const NONE: Modifiers = Modifiers { shift: false, control: false, alt: false, super_key: false };
const CONTROL: Modifiers = Modifiers { shift: false, control: true, alt: false, super_key: false };
const SUPER: Modifiers = Modifiers { shift: false, control: false, alt: false, super_key: true };
const SHIFT: Modifiers = Modifiers { shift: true, control: false, alt: false, super_key: false };
const SUPER_SHIFT: Modifiers =
    Modifiers { shift: true, control: false, alt: false, super_key: true };
const ALT: Modifiers = Modifiers { shift: false, control: false, alt: true, super_key: false };

#[test]
fn is_ctrl_v_detects_control_v() {
    assert!(is_ctrl_v(true, CONTROL));
    assert!(!is_ctrl_v(true, SUPER));
    assert!(!is_ctrl_v(false, CONTROL));
}

#[test]
fn character_keys_need_a_command_key() {
    for ch in ["o", "s", "t", "f", "a", "c", "v", "x", "w", "z", "y", "1", "[", "e"] {
        assert_eq!(command_for_character(ch, NONE, false), Command::Nothing);
        assert_eq!(command_for_character(ch, SHIFT, true), Command::Nothing);
        assert_eq!(command_for_character(ch, ALT, false), Command::Nothing);
    }
}

#[test]
fn character_keys_map_to_commands() {
    assert_eq!(command_for_character("o", SUPER, false), Command::Open);
    assert_eq!(command_for_character("O", CONTROL, false), Command::Open);
    assert_eq!(command_for_character("s", SUPER, false), Command::Save);
    assert_eq!(command_for_character("S", SUPER_SHIFT, false), Command::SaveAs);
    assert_eq!(command_for_character("t", SUPER, false), Command::NewTab);
    assert_eq!(command_for_character("f", SUPER, false), Command::StartSearch);
    assert_eq!(command_for_character("a", SUPER, false), Command::SelectAll);
    assert_eq!(command_for_character("c", SUPER, false), Command::Copy);
    assert_eq!(command_for_character("c", SUPER, true), Command::CopyToHistory);
    assert_eq!(command_for_character("v", SUPER, false), Command::Paste);
    assert_eq!(command_for_character("v", CONTROL, false), Command::Nothing);
    assert_eq!(command_for_character("x", SUPER, false), Command::Cut);
    assert_eq!(command_for_character("w", SUPER, false), Command::CloseTab);
    assert_eq!(command_for_character("[", SUPER_SHIFT, false), Command::PreviousTab);
    assert_eq!(command_for_character("]", SUPER_SHIFT, false), Command::NextTab);
    assert_eq!(command_for_character("[", SUPER, false), Command::Nothing);
    assert_eq!(command_for_character("1", SUPER, false), Command::SwitchTab(0));
    assert_eq!(command_for_character("9", SUPER_SHIFT, false), Command::SwitchTab(8));
    assert_eq!(command_for_character("0", SUPER, false), Command::Nothing);
    assert_eq!(command_for_character("z", SUPER, false), Command::Undo);
    assert_eq!(command_for_character("z", SUPER_SHIFT, false), Command::Redo);
    assert_eq!(command_for_character("y", SUPER, false), Command::Redo);
    assert_eq!(command_for_character("e", SUPER_SHIFT, false), Command::NextEncoding);
    assert_eq!(command_for_character("e", SUPER, false), Command::Nothing);
    assert_eq!(command_for_character("oo", SUPER, false), Command::Nothing);
    assert_eq!(command_for_character("", SUPER, false), Command::Nothing);
    assert_eq!(command_for_character("q", SUPER, false), Command::Nothing);
}

#[test]
fn named_keys_map_to_commands() {
    assert_eq!(command_for_named(KeyName::Backspace, NONE), Command::Backspace);
    assert_eq!(command_for_named(KeyName::Enter, SUPER), Command::InsertNewline);
    assert_eq!(command_for_named(KeyName::ArrowLeft, NONE), Command::Move(Direction::Left, false));
    assert_eq!(command_for_named(KeyName::ArrowRight, SHIFT), Command::Move(Direction::Right, true));
    assert_eq!(command_for_named(KeyName::ArrowUp, SHIFT), Command::Move(Direction::Up, true));
    assert_eq!(command_for_named(KeyName::ArrowDown, NONE), Command::Move(Direction::Down, false));
    assert_eq!(command_for_named(KeyName::Escape, NONE), Command::Nothing);
    assert_eq!(command_for_named(KeyName::Other, NONE), Command::Nothing);
}

#[test]
fn search_bar_keys_map_to_commands() {
    assert_eq!(search_command_for(KeyName::Escape, NONE, true, true), SearchCommand::Close);
    assert_eq!(search_command_for(KeyName::Enter, NONE, false, false), SearchCommand::FindNext);
    assert_eq!(search_command_for(KeyName::Enter, SHIFT, false, false), SearchCommand::FindPrevious);
    assert_eq!(search_command_for(KeyName::Enter, NONE, true, false), SearchCommand::Nothing);
    assert_eq!(search_command_for(KeyName::Enter, NONE, false, true), SearchCommand::Nothing);
    assert_eq!(search_command_for(KeyName::Backspace, NONE, false, false), SearchCommand::DeleteLast);
    assert_eq!(search_command_for(KeyName::Backspace, NONE, true, false), SearchCommand::DeleteLast);
    assert_eq!(search_command_for(KeyName::Backspace, NONE, false, true), SearchCommand::Nothing);
    assert_eq!(search_command_for(KeyName::ArrowUp, NONE, false, false), SearchCommand::Nothing);
}

#[test]
fn clipboard_panel_keys_map_to_commands() {
    assert_eq!(clipboard_command_for_named(KeyName::Escape), ClipboardCommand::Dismiss);
    assert_eq!(clipboard_command_for_named(KeyName::Enter), ClipboardCommand::PasteSelected);
    assert_eq!(clipboard_command_for_named(KeyName::ArrowUp), ClipboardCommand::SelectPrevious);
    assert_eq!(clipboard_command_for_named(KeyName::ArrowDown), ClipboardCommand::SelectNext);
    assert_eq!(clipboard_command_for_named(KeyName::Backspace), ClipboardCommand::Nothing);
    assert_eq!(clipboard_command_for_character("1"), ClipboardCommand::PasteVisible(0));
    assert_eq!(clipboard_command_for_character("2"), ClipboardCommand::PasteVisible(1));
    assert_eq!(clipboard_command_for_character("3"), ClipboardCommand::PasteVisible(2));
    assert_eq!(clipboard_command_for_character("4"), ClipboardCommand::Nothing);
    assert_eq!(clipboard_command_for_character("12"), ClipboardCommand::Nothing);
    assert_eq!(clipboard_command_for_character(""), ClipboardCommand::Nothing);
}

#[test]
fn typed_text_is_taken_without_command_keys() {
    assert!(document_accepts_text(NONE));
    assert!(document_accepts_text(SHIFT));
    assert!(!document_accepts_text(CONTROL));
    assert!(!document_accepts_text(ALT));
    assert!(!document_accepts_text(SUPER));
    assert!(search_accepts_text("a", NONE));
    assert!(search_accepts_text("\u{3042}b", SHIFT));
    assert!(!search_accepts_text("", NONE));
    assert!(!search_accepts_text("a", CONTROL));
    assert!(!search_accepts_text("a", SUPER));
    assert!(!search_accepts_text("a", ALT));
    for control in ["\r", "\u{8}", "\u{1b}", "a\u{7f}", "\u{9f}", "\u{0}", "x\u{1f}y", "\u{80}"] {
        assert!(!search_accepts_text(control, NONE));
    }
    for plain in [" ", "~", "\u{a0}", "\u{20}\u{7e}"] {
        assert!(search_accepts_text(plain, NONE));
    }
    for c in ['\u{0}', '\u{1f}', '\u{20}', '\u{7e}', '\u{7f}', '\u{9f}', '\u{a0}', 'a'] {
        assert_eq!(search_accepts_text(&c.to_string(), NONE), !c.is_control());
    }
}

#[test]
fn search_steps_go_round_the_buffer() {
    let mut core = Core::new();
    core.insert_str("abc def abc\nabc");
    core.set_cursor_line_col(0, 0, false);
    assert!(jump_to_match(&mut core, "abc", false));
    assert_eq!(core.cursor_char(), 8);
    assert!(jump_to_match(&mut core, "abc", false));
    assert_eq!(core.cursor_char(), 12);
    assert!(jump_to_match(&mut core, "abc", false));
    assert_eq!(core.cursor_char(), 0);
    assert!(jump_to_match(&mut core, "abc", true));
    assert_eq!(core.cursor_char(), 12);
    assert!(jump_to_match(&mut core, "abc", true));
    assert_eq!(core.cursor_char(), 8);
    core.select_all();
    assert!(jump_to_match(&mut core, "def", true));
    assert_eq!(core.cursor_char(), 4);
    assert_eq!(core.selection_range(), None);
    assert!(!jump_to_match(&mut core, "def", false));
    assert_eq!(core.cursor_char(), 4);
    assert!(!jump_to_match(&mut core, "xyz", false));
    assert!(!jump_to_match(&mut core, "", true));
    assert_eq!(core.cursor_char(), 4);
    assert_eq!(core.len_chars(), 15);
}
