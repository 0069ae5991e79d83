//! The document as a mathematical state, and each operation of the engine as
//! a function from state to state.
//!
//! The executable engine is specified against this model: every method's
//! contract says that the engine's view after the call is the model's function
//! applied to its view before. The laws of the engine are proved over the
//! model.

use crate::codec::TextEncoding;
use crate::lines::{line_count, line_len, line_of, line_start};
use crate::utf8::chars_within;
use std::path::PathBuf;
use vstd::prelude::*;

verus! {

/// `std::path::PathBuf`, made known to Verus as a type whose inside it does
/// not see: the engine carries a path, it does not read it.
#[verifier::external_type_specification]
#[verifier::external_body]
pub struct ExPathBuf(std::path::PathBuf);

/// The most edits that can be undone.
pub const UNDO_LIMIT: usize = 100;

/// What one recorded edit did to the text.
pub enum Change {
    /// `text` was put in at `idx`.
    Insert { idx: nat, text: Seq<char> },
    /// `text` was taken out at `idx`.
    Delete { idx: nat, text: Seq<char> },
    /// `deleted` was taken out at `idx` and `inserted` put in its place.
    Replace { idx: nat, deleted: Seq<char>, inserted: Seq<char> },
}

/// One undoable edit: what changed, and where the cursor stood just before
/// and just after.
pub struct EditRecord {
    pub change: Change,
    pub cursor_before: nat,
    pub cursor_after: nat,
}

impl EditRecord {
    /// The offset at which the edit took place.
    pub open spec fn idx(self) -> nat {
        match self.change {
            Change::Insert { idx, .. } => idx,
            Change::Delete { idx, .. } => idx,
            Change::Replace { idx, .. } => idx,
        }
    }

    /// The characters that the edit took out of the text.
    pub open spec fn removed(self) -> Seq<char> {
        match self.change {
            Change::Insert { .. } => Seq::empty(),
            Change::Delete { text, .. } => text,
            Change::Replace { deleted, .. } => deleted,
        }
    }

    /// The characters that the edit put into the text.
    pub open spec fn added(self) -> Seq<char> {
        match self.change {
            Change::Insert { text, .. } => text,
            Change::Delete { .. } => Seq::empty(),
            Change::Replace { inserted, .. } => inserted,
        }
    }

    /// The text that results when the edit is made on `text`.
    pub open spec fn apply(self, text: Seq<char>) -> Seq<char> {
        text.take(self.idx() as int) + self.added() + text.skip(
            (self.idx() + self.removed().len()) as int,
        )
    }

    /// The text that results when the edit is taken back from `text`.
    pub open spec fn revert(self, text: Seq<char>) -> Seq<char> {
        text.take(self.idx() as int) + self.removed() + text.skip(
            (self.idx() + self.added().len()) as int,
        )
    }

    /// Whether `text` is a text on which the edit can be made: it holds what
    /// the edit removes, where the edit removes it, and both cursors fit.
    pub open spec fn applies_to(self, text: Seq<char>) -> bool {
        &&& self.idx() + self.removed().len() <= text.len()
        &&& text.subrange(self.idx() as int, (self.idx() + self.removed().len()) as int) == self.removed()
        &&& self.cursor_before <= text.len()
        &&& self.cursor_after <= self.apply(text).len() <= usize::MAX
    }

    /// Whether `text` is a text from which the edit can be taken back: it
    /// holds what the edit added, where the edit added it, and both cursors
    /// fit.
    pub open spec fn reverts_on(self, text: Seq<char>) -> bool {
        &&& self.idx() + self.added().len() <= text.len()
        &&& text.subrange(self.idx() as int, (self.idx() + self.added().len()) as int) == self.added()
        &&& self.cursor_after <= text.len()
        &&& self.cursor_before <= self.revert(text).len() <= usize::MAX
    }
}

/// Whether the edits in `stack` can be taken back one after the other, the
/// last first, starting from `text`.
pub open spec fn undoable(text: Seq<char>, stack: Seq<EditRecord>) -> bool
    decreases stack.len(),
{
    stack.len() > 0 ==> {
        &&& stack.last().reverts_on(text)
        &&& undoable(stack.last().revert(text), stack.drop_last())
    }
}

/// Whether the edits in `stack` can be made again one after the other, the
/// last first, starting from `text`.
pub open spec fn redoable(text: Seq<char>, stack: Seq<EditRecord>) -> bool
    decreases stack.len(),
{
    stack.len() > 0 ==> {
        &&& stack.last().applies_to(text)
        &&& redoable(stack.last().apply(text), stack.drop_last())
    }
}

/// The newest `UNDO_LIMIT` edits of `stack`.
pub open spec fn capped(stack: Seq<EditRecord>) -> Seq<EditRecord> {
    if stack.len() > UNDO_LIMIT {
        stack.skip(stack.len() - UNDO_LIMIT)
    } else {
        stack
    }
}

/// Text that an input method is composing: shown at the cursor, not part of
/// the buffer. `cursor` is a range of byte offsets into `text`.
pub struct Composition {
    pub text: Seq<char>,
    pub cursor: Option<(usize, usize)>,
}

/// A position in the text by line and column, both counted from zero and in
/// characters.
#[derive(Debug, Clone, Copy, Default, PartialEq, Eq, Structural)]
pub struct Cursor {
    pub line: usize,
    pub col: usize,
}

/// The whole state of one open document.
pub struct DocState {
    pub text: Seq<char>,
    pub cursor: nat,
    pub anchor: Option<nat>,
    pub preedit: Option<Composition>,
    pub undo: Seq<EditRecord>,
    pub redo: Seq<EditRecord>,
    pub path: Option<PathBuf>,
    pub encoding: TextEncoding,
    pub dirty: bool,
}

impl DocState {
    /// The state of a new, empty document.
    pub open spec fn empty() -> DocState {
        DocState {
            text: Seq::empty(),
            cursor: 0,
            anchor: None,
            preedit: None,
            undo: Seq::empty(),
            redo: Seq::empty(),
            path: None,
            encoding: TextEncoding::Utf8,
            dirty: false,
        }
    }

    /// What holds of every state that the engine reaches: cursor and anchor
    /// lie within the text, an anchor differs from the cursor, a composition
    /// is not empty, the history fits its cap, and both history stacks can be
    /// replayed from the text as it stands.
    pub open spec fn wf(self) -> bool {
        &&& self.text.len() <= usize::MAX
        &&& self.cursor <= self.text.len()
        &&& (self.anchor matches Some(a) ==> a <= self.text.len() && a != self.cursor)
        &&& (self.preedit matches Some(p) ==> p.text.len() > 0)
        &&& self.undo.len() + self.redo.len() <= UNDO_LIMIT
        &&& undoable(self.text, self.undo)
        &&& redoable(self.text, self.redo)
    }

    /// The selected range, from its lower to its upper end, if any.
    pub open spec fn selection(self) -> Option<(nat, nat)> {
        match self.anchor {
            Some(a) => if a == self.cursor {
                None
            } else if a < self.cursor {
                Some((a, self.cursor))
            } else {
                Some((self.cursor, a))
            },
            None => None,
        }
    }

    /// The selected characters, if any.
    pub open spec fn selected_text(self) -> Option<Seq<char>> {
        match self.selection() {
            Some((start, end)) => Some(self.text.subrange(start as int, end as int)),
            None => None,
        }
    }

    /// Line and column of `offset`, which is first brought into the text.
    pub open spec fn position_of(self, offset: nat) -> (nat, nat) {
        let at = if offset <= self.text.len() {
            offset
        } else {
            self.text.len()
        };
        let line = line_of(self.text, at as int);
        (line, (at - line_start(self.text, line)) as nat)
    }

    /// The offset of column `col` on line `line`, both first brought into the
    /// text: the line to the last line, the column to the length of that line.
    pub open spec fn offset_of(self, line: nat, col: nat) -> nat {
        let line = if line < line_count(self.text) {
            line
        } else {
            (line_count(self.text) - 1) as nat
        };
        let len = line_len(self.text, line);
        line_start(self.text, line) + if col <= len {
            col
        } else {
            len
        }
    }

    /// The length of line `line`, which is first brought into the text,
    /// without the line feed that ends it.
    pub open spec fn line_len_at(self, line: nat) -> nat {
        line_len(
            self.text,
            if line < line_count(self.text) {
                line
            } else {
                (line_count(self.text) - 1) as nat
            },
        )
    }

    /// The cursor is moved to `next`, brought into the text. With `extend`
    /// a selection is kept, or begun at the cursor's old place; without it
    /// the selection is dropped. An anchor on which the cursor lands is
    /// dropped too.
    pub open spec fn set_cursor(self, next: nat, extend: bool) -> DocState {
        let anchor = if extend {
            match self.anchor {
                Some(a) => Some(a),
                None => Some(self.cursor),
            }
        } else {
            None
        };
        let cursor = if next <= self.text.len() {
            next
        } else {
            self.text.len()
        };
        DocState { cursor, anchor: if anchor == Some(cursor) { None } else { anchor }, ..self }
    }

    pub open spec fn set_cursor_line_col(self, line: nat, col: nat, extend: bool) -> DocState {
        self.set_cursor(self.offset_of(line, col), extend)
    }

    pub open spec fn move_left(self, extend: bool) -> DocState {
        if self.cursor == 0 {
            self
        } else {
            self.set_cursor((self.cursor - 1) as nat, extend)
        }
    }

    pub open spec fn move_right(self, extend: bool) -> DocState {
        if self.cursor >= self.text.len() {
            self
        } else {
            self.set_cursor(self.cursor + 1, extend)
        }
    }

    pub open spec fn move_up(self, extend: bool) -> DocState {
        let (line, col) = self.position_of(self.cursor);
        if line == 0 {
            self
        } else {
            self.set_cursor(self.offset_of((line - 1) as nat, col), extend)
        }
    }

    pub open spec fn move_down(self, extend: bool) -> DocState {
        let (line, col) = self.position_of(self.cursor);
        if line + 1 >= line_count(self.text) {
            self
        } else {
            self.set_cursor(self.offset_of(line + 1, col), extend)
        }
    }

    pub open spec fn select_all(self) -> DocState {
        if self.text.len() == 0 {
            DocState { cursor: 0, anchor: None, ..self }
        } else {
            DocState { cursor: self.text.len(), anchor: Some(0), ..self }
        }
    }

    /// `edit` becomes the newest undoable edit; the oldest ones beyond the cap
    /// are forgotten, and so is everything that could be redone.
    pub open spec fn record(self, edit: EditRecord) -> DocState {
        DocState { undo: capped(self.undo.push(edit)), redo: Seq::empty(), ..self }
    }

    /// The edit that `insert_str` makes for a non-empty `text`.
    pub open spec fn insertion(self, text: Seq<char>) -> EditRecord {
        match self.selection() {
            Some((start, end)) => EditRecord {
                change: Change::Replace {
                    idx: start,
                    deleted: self.text.subrange(start as int, end as int),
                    inserted: text,
                },
                cursor_before: self.cursor,
                cursor_after: start + text.len(),
            },
            None => EditRecord {
                change: Change::Insert { idx: self.cursor, text },
                cursor_before: self.cursor,
                cursor_after: self.cursor + text.len(),
            },
        }
    }

    /// The edit that removes the characters from `start` up to `end`.
    pub open spec fn deletion(self, start: nat, end: nat) -> EditRecord {
        EditRecord {
            change: Change::Delete { idx: start, text: self.text.subrange(start as int, end as int) },
            cursor_before: self.cursor,
            cursor_after: start,
        }
    }

    /// `edit` is made and recorded: the text changes, the cursor goes where
    /// the edit leaves it, selection and composition end, and the document
    /// is dirty.
    pub open spec fn commit(self, edit: EditRecord) -> DocState {
        DocState {
            text: edit.apply(self.text),
            cursor: edit.cursor_after,
            anchor: None,
            preedit: None,
            dirty: true,
            ..self
        }.record(edit)
    }

    pub open spec fn insert_str(self, text: Seq<char>) -> DocState {
        if text.len() == 0 {
            self
        } else {
            self.commit(self.insertion(text))
        }
    }

    pub open spec fn delete_selection(self) -> DocState {
        match self.selection() {
            Some((start, end)) => self.commit(self.deletion(start, end)),
            None => self,
        }
    }

    pub open spec fn backspace(self) -> DocState {
        match self.selection() {
            Some((start, end)) => self.commit(self.deletion(start, end)),
            None => if self.cursor > 0 {
                self.commit(self.deletion((self.cursor - 1) as nat, self.cursor))
            } else {
                self
            },
        }
    }

    /// The newest undoable edit is taken back and can now be redone.
    pub open spec fn undo(self) -> DocState {
        if self.undo.len() == 0 {
            self
        } else {
            let edit = self.undo.last();
            DocState {
                text: edit.revert(self.text),
                cursor: edit.cursor_before,
                anchor: None,
                preedit: None,
                undo: self.undo.drop_last(),
                redo: self.redo.push(edit),
                dirty: true,
                ..self
            }
        }
    }

    /// The edit that was taken back last is made again and can be undone
    /// again.
    pub open spec fn redo(self) -> DocState {
        if self.redo.len() == 0 {
            self
        } else {
            let edit = self.redo.last();
            DocState {
                text: edit.apply(self.text),
                cursor: edit.cursor_after,
                anchor: None,
                preedit: None,
                undo: capped(self.undo.push(edit)),
                redo: self.redo.drop_last(),
                dirty: true,
                ..self
            }
        }
    }

    pub open spec fn set_preedit(self, text: Seq<char>, cursor: Option<(usize, usize)>) -> DocState {
        if text.len() == 0 {
            DocState { preedit: None, ..self }
        } else {
            DocState { preedit: Some(Composition { text, cursor }), ..self }
        }
    }

    pub open spec fn clear_preedit(self) -> DocState {
        DocState { preedit: None, ..self }
    }

    pub open spec fn commit_preedit(self, text: Seq<char>) -> DocState {
        self.clear_preedit().insert_str(text)
    }

    /// The text to show: the buffer, with a composition spliced in at the
    /// cursor.
    pub open spec fn display_text(self) -> Seq<char> {
        match self.preedit {
            Some(p) => self.text.take(self.cursor as int) + p.text + self.text.skip(
                self.cursor as int,
            ),
            None => self.text,
        }
    }

    /// The offset at which an input method's candidate window belongs: the
    /// cursor, moved on by the characters of the composition that lie before
    /// the end of its own cursor range.
    pub open spec fn ime_cursor(self) -> nat {
        match self.preedit {
            Some(p) => match p.cursor {
                Some((_, end)) => self.cursor + chars_within(p.text, end as nat),
                None => self.cursor,
            },
            None => self.cursor,
        }
    }

    /// The state after `text` was loaded from a file in `encoding`: nothing
    /// of the old document is left but its path.
    pub open spec fn loaded(self, text: Seq<char>, encoding: TextEncoding) -> DocState {
        DocState { path: self.path, encoding, text, ..DocState::empty() }
    }

    pub open spec fn mark_saved(self, path: PathBuf, encoding: TextEncoding) -> DocState {
        DocState { path: Some(path), encoding, dirty: false, ..self }
    }
}

} // verus!
