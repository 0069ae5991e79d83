//! What a key press asks for.
//!
//! The editor is in one of three modes: the clipboard panel is open, the
//! search bar is open, or keys go to the document. For each mode a table says
//! what a key press means. The tables only decide; carrying out what they
//! decide is the caller's part.

use crate::session::Direction;
use vstd::prelude::*;
use vstd::string::StrSliceExecFns;

verus! {

/// A key with a name.
#[derive(Debug, Clone, Copy, PartialEq, Eq, Structural)]
pub enum KeyName {
    Escape,
    Enter,
    Backspace,
    ArrowLeft,
    ArrowRight,
    ArrowUp,
    ArrowDown,
    Other,
}

/// The modifier keys that are held down.
#[derive(Debug, Clone, Copy, PartialEq, Eq, Structural)]
pub struct Modifiers {
    pub shift: bool,
    pub control: bool,
    pub alt: bool,
    pub super_key: bool,
}

/// What a key press in the document asks for.
#[derive(Debug, Clone, Copy, PartialEq, Eq, Structural)]
pub enum Command {
    /// Nothing but, perhaps, the text that the key types.
    Nothing,
    Open,
    /// Save under the document's path, or ask for one where it has none.
    Save,
    /// Ask for a path and save there.
    SaveAs,
    NewTab,
    StartSearch,
    SelectAll,
    /// Put the selection into the clipboard history only.
    CopyToHistory,
    /// Put the selection into the clipboard history and the system's
    /// clipboard.
    Copy,
    Paste,
    Cut,
    CloseTab,
    PreviousTab,
    NextTab,
    /// Make the tab with this index the active one, if there is such a tab.
    SwitchTab(usize),
    Undo,
    Redo,
    NextEncoding,
    Backspace,
    /// Move the cursor one step, extending the selection or not.
    Move(Direction, bool),
    InsertNewline,
}

/// What a key press in the search bar asks for.
#[derive(Debug, Clone, Copy, PartialEq, Eq, Structural)]
pub enum SearchCommand {
    /// Nothing but, perhaps, the text that the key types.
    Nothing,
    /// Close the search bar and forget the query.
    Close,
    FindNext,
    FindPrevious,
    /// Take the last character off the query.
    DeleteLast,
}

/// What a key press in the clipboard panel asks for.
#[derive(Debug, Clone, Copy, PartialEq, Eq, Structural)]
pub enum ClipboardCommand {
    Nothing,
    Dismiss,
    /// Insert the selected entry and close the panel.
    PasteSelected,
    SelectPrevious,
    SelectNext,
    /// Insert the entry at this place of the window, if there is one, and
    /// close the panel.
    PasteVisible(usize),
}

/// Whether `ch` is the one letter `lower`, in either case.
pub open spec fn is_letter(ch: Seq<char>, lower: char, upper: char) -> bool {
    ch.len() == 1 && (ch[0] == lower || ch[0] == upper)
}

/// Whether `ch` is the one character `c`.
pub open spec fn is_char(ch: Seq<char>, c: char) -> bool {
    ch.len() == 1 && ch[0] == c
}

/// Whether a command key is held down.
pub open spec fn command_key(modifiers: Modifiers) -> bool {
    modifiers.super_key || modifiers.control
}

/// What pressing the character key `ch` asks for in the document. The first
/// line that fits decides.
pub open spec fn character_command(ch: Seq<char>, modifiers: Modifiers, fn_pressed: bool) -> Command {
    if !command_key(modifiers) {
        Command::Nothing
    } else if is_letter(ch, 'o', 'O') {
        Command::Open
    } else if is_letter(ch, 's', 'S') {
        if modifiers.shift {
            Command::SaveAs
        } else {
            Command::Save
        }
    } else if is_letter(ch, 't', 'T') {
        Command::NewTab
    } else if is_letter(ch, 'f', 'F') {
        Command::StartSearch
    } else if is_letter(ch, 'a', 'A') {
        Command::SelectAll
    } else if is_letter(ch, 'c', 'C') {
        if fn_pressed {
            Command::CopyToHistory
        } else {
            Command::Copy
        }
    } else if is_letter(ch, 'v', 'V') && !modifiers.control {
        Command::Paste
    } else if is_letter(ch, 'x', 'X') {
        Command::Cut
    } else if is_letter(ch, 'w', 'W') {
        Command::CloseTab
    } else if modifiers.shift && is_char(ch, '[') {
        Command::PreviousTab
    } else if modifiers.shift && is_char(ch, ']') {
        Command::NextTab
    } else if ch.len() > 0 && '1' <= ch[0] <= '9' {
        Command::SwitchTab((ch[0] as u32 - '1' as u32) as usize)
    } else if is_letter(ch, 'z', 'Z') {
        if modifiers.shift {
            Command::Redo
        } else {
            Command::Undo
        }
    } else if is_letter(ch, 'y', 'Y') {
        Command::Redo
    } else if modifiers.shift && is_letter(ch, 'e', 'E') {
        Command::NextEncoding
    } else {
        Command::Nothing
    }
}

/// What pressing a named key asks for in the document.
pub open spec fn named_command(key: KeyName, modifiers: Modifiers) -> Command {
    match key {
        KeyName::Backspace => Command::Backspace,
        KeyName::ArrowLeft => Command::Move(Direction::Left, modifiers.shift),
        KeyName::ArrowRight => Command::Move(Direction::Right, modifiers.shift),
        KeyName::ArrowUp => Command::Move(Direction::Up, modifiers.shift),
        KeyName::ArrowDown => Command::Move(Direction::Down, modifiers.shift),
        KeyName::Enter => Command::InsertNewline,
        _ => Command::Nothing,
    }
}

/// What pressing a named key asks for in the search bar, where the query is
/// empty or not and a composition is under way or not.
pub open spec fn search_command(
    key: KeyName,
    modifiers: Modifiers,
    query_is_empty: bool,
    composing: bool,
) -> SearchCommand {
    match key {
        KeyName::Escape => SearchCommand::Close,
        KeyName::Enter => if composing || query_is_empty {
            SearchCommand::Nothing
        } else if modifiers.shift {
            SearchCommand::FindPrevious
        } else {
            SearchCommand::FindNext
        },
        KeyName::Backspace => if composing {
            SearchCommand::Nothing
        } else {
            SearchCommand::DeleteLast
        },
        _ => SearchCommand::Nothing,
    }
}

/// Whether `c` is a control character: one of U+0000 to U+001F or U+007F to
/// U+009F.
pub open spec fn is_control(c: char) -> bool {
    (c as u32) < 0x20 || 0x7F <= (c as u32) < 0xA0
}

/// Whether the search bar takes `text` that a key typed into its query: no
/// command key, Alt or Super is held, and the text is not empty and holds no
/// control character.
pub open spec fn search_takes_text(text: Seq<char>, modifiers: Modifiers) -> bool {
    &&& !command_key(modifiers)
    &&& !modifiers.alt
    &&& text.len() > 0
    &&& forall|i: int| 0 <= i < text.len() ==> !is_control(#[trigger] text[i])
}

/// Whether the document takes the text that a key typed: neither Control,
/// Alt nor Super is held.
pub open spec fn document_takes_text(modifiers: Modifiers) -> bool {
    !modifiers.control && !modifiers.alt && !modifiers.super_key
}

/// Whether `ch` is the one letter `lower`, in either case.
fn letter_key(ch: &str, lower: char, upper: char) -> (is: bool)
    ensures
        is == is_letter(ch@, lower, upper),
{
    if ch.unicode_len() != 1 {
        return false;
    }
    let c = ch.get_char(0);
    c == lower || c == upper
}

/// Whether `ch` is the one character `c`.
fn char_key(ch: &str, c: char) -> (is: bool)
    ensures
        is == is_char(ch@, c),
{
    ch.unicode_len() == 1 && ch.get_char(0) == c
}

/// Whether Control and the key at the place of V are held: the key that
/// opens the clipboard history.
pub fn is_ctrl_v(physical_key_is_v: bool, modifiers: Modifiers) -> (is: bool)
    ensures
        is == (modifiers.control && physical_key_is_v),
{
    modifiers.control && physical_key_is_v
}

/// What pressing the character key `ch` asks for in the document.
pub fn command_for_character(ch: &str, modifiers: Modifiers, fn_pressed: bool) -> (command: Command)
    ensures
        command == character_command(ch@, modifiers, fn_pressed),
{
    let command_key = modifiers.super_key || modifiers.control;
    if !command_key {
        Command::Nothing
    } else if letter_key(ch, 'o', 'O') {
        Command::Open
    } else if letter_key(ch, 's', 'S') {
        if modifiers.shift {
            Command::SaveAs
        } else {
            Command::Save
        }
    } else if letter_key(ch, 't', 'T') {
        Command::NewTab
    } else if letter_key(ch, 'f', 'F') {
        Command::StartSearch
    } else if letter_key(ch, 'a', 'A') {
        Command::SelectAll
    } else if letter_key(ch, 'c', 'C') {
        if fn_pressed {
            Command::CopyToHistory
        } else {
            Command::Copy
        }
    } else if letter_key(ch, 'v', 'V') && !modifiers.control {
        Command::Paste
    } else if letter_key(ch, 'x', 'X') {
        Command::Cut
    } else if letter_key(ch, 'w', 'W') {
        Command::CloseTab
    } else if modifiers.shift && char_key(ch, '[') {
        Command::PreviousTab
    } else if modifiers.shift && char_key(ch, ']') {
        Command::NextTab
    } else if let Some(index) = crate::session::tab_index_from_key(ch) {
        Command::SwitchTab(index)
    } else if letter_key(ch, 'z', 'Z') {
        if modifiers.shift {
            Command::Redo
        } else {
            Command::Undo
        }
    } else if letter_key(ch, 'y', 'Y') {
        Command::Redo
    } else if modifiers.shift && letter_key(ch, 'e', 'E') {
        Command::NextEncoding
    } else {
        Command::Nothing
    }
}

/// What pressing a named key asks for in the document.
pub fn command_for_named(key: KeyName, modifiers: Modifiers) -> (command: Command)
    ensures
        command == named_command(key, modifiers),
{
    match key {
        KeyName::Backspace => Command::Backspace,
        KeyName::ArrowLeft => Command::Move(Direction::Left, modifiers.shift),
        KeyName::ArrowRight => Command::Move(Direction::Right, modifiers.shift),
        KeyName::ArrowUp => Command::Move(Direction::Up, modifiers.shift),
        KeyName::ArrowDown => Command::Move(Direction::Down, modifiers.shift),
        KeyName::Enter => Command::InsertNewline,
        _ => Command::Nothing,
    }
}

/// What pressing a named key asks for in the search bar.
pub fn search_command_for(
    key: KeyName,
    modifiers: Modifiers,
    query_is_empty: bool,
    composing: bool,
) -> (command: SearchCommand)
    ensures
        command == search_command(key, modifiers, query_is_empty, composing),
{
    match key {
        KeyName::Escape => SearchCommand::Close,
        KeyName::Enter => {
            if composing || query_is_empty {
                SearchCommand::Nothing
            } else if modifiers.shift {
                SearchCommand::FindPrevious
            } else {
                SearchCommand::FindNext
            }
        },
        KeyName::Backspace => {
            if composing {
                SearchCommand::Nothing
            } else {
                SearchCommand::DeleteLast
            }
        },
        _ => SearchCommand::Nothing,
    }
}

/// What pressing a named key asks for in the clipboard panel.
pub fn clipboard_command_for_named(key: KeyName) -> (command: ClipboardCommand)
    ensures
        command == match key {
            KeyName::Escape => ClipboardCommand::Dismiss,
            KeyName::Enter => ClipboardCommand::PasteSelected,
            KeyName::ArrowUp => ClipboardCommand::SelectPrevious,
            KeyName::ArrowDown => ClipboardCommand::SelectNext,
            _ => ClipboardCommand::Nothing,
        },
{
    match key {
        KeyName::Escape => ClipboardCommand::Dismiss,
        KeyName::Enter => ClipboardCommand::PasteSelected,
        KeyName::ArrowUp => ClipboardCommand::SelectPrevious,
        KeyName::ArrowDown => ClipboardCommand::SelectNext,
        _ => ClipboardCommand::Nothing,
    }
}

/// What pressing the character key `ch` asks for in the clipboard panel:
/// the keys 1, 2 and 3 pick an entry of the window.
pub fn clipboard_command_for_character(ch: &str) -> (command: ClipboardCommand)
    ensures
        command == if is_char(ch@, '1') {
            ClipboardCommand::PasteVisible(0)
        } else if is_char(ch@, '2') {
            ClipboardCommand::PasteVisible(1)
        } else if is_char(ch@, '3') {
            ClipboardCommand::PasteVisible(2)
        } else {
            ClipboardCommand::Nothing
        },
{
    if char_key(ch, '1') {
        ClipboardCommand::PasteVisible(0)
    } else if char_key(ch, '2') {
        ClipboardCommand::PasteVisible(1)
    } else if char_key(ch, '3') {
        ClipboardCommand::PasteVisible(2)
    } else {
        ClipboardCommand::Nothing
    }
}

/// Whether the search bar takes `text` that a key typed into its query.
pub fn search_accepts_text(text: &str, modifiers: Modifiers) -> (takes: bool)
    ensures
        takes == search_takes_text(text@, modifiers),
{
    if modifiers.super_key || modifiers.control || modifiers.alt {
        return false;
    }
    let chars = crate::utf8::chars_of(text);
    if chars.len() == 0 {
        return false;
    }
    let mut k: usize = 0;
    while k < chars.len()
        invariant
            k <= chars.len(),
            chars@ == text@,
            chars@.len() > 0,
            !modifiers.super_key && !modifiers.control && !modifiers.alt,
            forall|i: int| 0 <= i < k ==> !is_control(#[trigger] chars@[i]),
        decreases chars.len() - k,
    {
        let scalar = chars[k] as u32;
        if scalar < 0x20 || (0x7F <= scalar && scalar < 0xA0) {
            proof {
                assert(is_control(text@[k as int]));
            }
            return false;
        }
        k = k + 1;
    }
    true
}

/// Whether the document takes the text that a key typed.
pub fn document_accepts_text(modifiers: Modifiers) -> (takes: bool)
    ensures
        takes == document_takes_text(modifiers),
{
    !modifiers.control && !modifiers.alt && !modifiers.super_key
}

} // verus!
