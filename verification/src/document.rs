//! The document engine: one open document with its buffer, cursor, selection,
//! edit history and input-method overlay.

use crate::codec::{
    bom_of, codec_limit, decode, detected_encoding, encode, encoded, for_bom, loaded_text,
    TextEncoding,
};
use crate::error::CoreError;
use crate::history::{
    lemma_backspace_wf, lemma_delete_selection_wf, lemma_deletion_applies, lemma_insert_str_wf,
    lemma_insertion_applies, lemma_redo_wf, lemma_undo_wf,
};
use crate::lines::{
    lemma_line_end_bounds, lemma_line_start_next, lemma_line_start_of_line_of,
    lemma_newline_count_prefix, line_count, line_len,
};
use crate::model::{capped, Change, Composition, Cursor, DocState, EditRecord, UNDO_LIMIT};
use crate::rope::{
    rope_char_to_line, rope_from_str, rope_insert, rope_len_chars, rope_len_lines,
    rope_line_to_char, rope_remove, rope_slice_to_string, rope_text, rope_to_string,
};
use crate::search::{
    find_all_in_text, find_in_text, last_below, matches_from, next_match, offsets_of, prev_match,
};
use crate::utf16::encode_utf16;
use crate::utf8::chars_before;
use ropey::Rope;
use std::path::PathBuf;
use vstd::prelude::*;
use vstd::slice::slice_subrange;
use vstd::string::StrSliceExecFns;
use vstd::string::StringExecFns;
use vstd::utf8::encode_utf8;

verus! {

struct Preedit {
    text: String,
    cursor: Option<(usize, usize)>,
}

impl View for Preedit {
    type V = Composition;

    closed spec fn view(&self) -> Composition {
        Composition { text: self.text@, cursor: self.cursor }
    }
}

enum EditKind {
    Insert { idx: usize, text: String },
    Delete { idx: usize, text: String },
    Replace { idx: usize, deleted: String, inserted: String },
}

struct Edit {
    kind: EditKind,
    cursor_before: usize,
    cursor_after: usize,
}

impl View for Edit {
    type V = EditRecord;

    closed spec fn view(&self) -> EditRecord {
        EditRecord {
            change: match self.kind {
                EditKind::Insert { idx, text } => Change::Insert { idx: idx as nat, text: text@ },
                EditKind::Delete { idx, text } => Change::Delete { idx: idx as nat, text: text@ },
                EditKind::Replace { idx, deleted, inserted } => Change::Replace {
                    idx: idx as nat,
                    deleted: deleted@,
                    inserted: inserted@,
                },
            },
            cursor_before: self.cursor_before as nat,
            cursor_after: self.cursor_after as nat,
        }
    }
}

/// The records that a stack of edits stands for.
spec fn records(edits: Seq<Edit>) -> Seq<EditRecord> {
    edits.map_values(|e: Edit| e@)
}

/// The length of line `line` without the line feed that ends it.
fn line_len_chars(rope: &Rope, line: usize) -> (len: usize)
    requires
        line < line_count(rope_text(rope)),
    ensures
        len == line_len(rope_text(rope), line as nat),
{
    proof {
        lemma_line_end_bounds(rope_text(rope), line as nat);
    }
    let lines = rope_len_lines(rope);
    let start = rope_line_to_char(rope, line);
    if line + 1 < lines {
        proof {
            lemma_line_start_next(rope_text(rope), line as nat);
        }
        let next = rope_line_to_char(rope, line + 1);
        next - 1 - start
    } else {
        rope_len_chars(rope) - start
    }
}

/// Whether two ranges are the same.
fn same_range(a: Option<(usize, usize)>, b: Option<(usize, usize)>) -> (same: bool)
    ensures
        same == (a == b),
{
    match (a, b) {
        (None, None) => true,
        (Some((a0, a1)), Some((b0, b1))) => a0 == b0 && a1 == b1,
        _ => false,
    }
}

/// One open document.
///
/// Its state is seen through its view, a [`DocState`]; every method says what
/// it does to that state. The methods keep the state well formed
/// ([`DocState::wf`]), and ask for a well-formed state where they rely on it.
pub struct Core {
    rope: Rope,
    cursor: usize,
    selection_anchor: Option<usize>,
    preedit: Option<Preedit>,
    undo: Vec<Edit>,
    redo: Vec<Edit>,
    path: Option<PathBuf>,
    encoding: TextEncoding,
    dirty: bool,
}

impl View for Core {
    type V = DocState;

    closed spec fn view(&self) -> DocState {
        DocState {
            text: rope_text(&self.rope),
            cursor: self.cursor as nat,
            anchor: match self.selection_anchor {
                Some(a) => Some(a as nat),
                None => None,
            },
            preedit: match self.preedit {
                Some(p) => Some(p@),
                None => None,
            },
            undo: records(self.undo@),
            redo: records(self.redo@),
            path: self.path,
            encoding: self.encoding,
            dirty: self.dirty,
        }
    }
}

impl Core {
    /// A new, empty document: one empty line, the cursor at its start, no
    /// history, not dirty.
    pub fn new() -> (core: Core)
        ensures
            core@ == DocState::empty(),
            core@.wf(),
    {
        proof {
            reveal_strlit("");
        }
        let core = Core {
            rope: rope_from_str(""),
            cursor: 0,
            selection_anchor: None,
            preedit: None,
            undo: Vec::new(),
            redo: Vec::new(),
            path: None,
            encoding: TextEncoding::Utf8,
            dirty: false,
        };
        proof {
            assert(core@.text =~= Seq::<char>::empty());
            assert(core@.undo =~= Seq::<EditRecord>::empty());
            assert(core@.redo =~= Seq::<EditRecord>::empty());
        }
        core
    }

    /// The buffer's text.
    pub fn text(&self) -> (text: String)
        ensures
            text@ == self@.text,
    {
        rope_to_string(&self.rope)
    }

    /// The number of characters in the buffer.
    pub fn len_chars(&self) -> (len: usize)
        ensures
            len == self@.text.len(),
    {
        rope_len_chars(&self.rope)
    }

    /// The cursor's offset in characters from the start of the buffer.
    pub fn cursor_char(&self) -> (offset: usize)
        ensures
            offset == self@.cursor,
    {
        self.cursor
    }

    /// The selected range, from its lower to its upper end, if anything is
    /// selected.
    pub fn selection_range(&self) -> (range: Option<(usize, usize)>)
        ensures
            match range {
                Some((start, end)) => self@.selection() == Some((start as nat, end as nat)),
                None => self@.selection().is_none(),
            },
    {
        match self.selection_anchor {
            None => None,
            Some(anchor) => {
                if anchor == self.cursor {
                    None
                } else if anchor < self.cursor {
                    Some((anchor, self.cursor))
                } else {
                    Some((self.cursor, anchor))
                }
            },
        }
    }

    /// Whether anything is selected.
    pub fn has_selection(&self) -> (selected: bool)
        ensures
            selected == self@.selection().is_some(),
    {
        self.selection_range().is_some()
    }

    /// The selected characters, if anything is selected.
    pub fn selected_text(&self) -> (selected: Option<String>)
        requires
            self@.wf(),
        ensures
            match selected {
                Some(text) => self@.selected_text() == Some(text@),
                None => self@.selected_text().is_none(),
            },
    {
        match self.selection_range() {
            None => None,
            Some((start, end)) => Some(rope_slice_to_string(&self.rope, start, end)),
        }
    }

    /// Moves the cursor to `next`, as [`DocState::set_cursor`] says.
    fn set_cursor(&mut self, next: usize, extend: bool)
        ensures
            final(self)@ == old(self)@.set_cursor(next as nat, extend),
    {
        if extend {
            if self.selection_anchor.is_none() {
                self.selection_anchor = Some(self.cursor);
            }
        } else {
            self.selection_anchor = None;
        }
        let total = rope_len_chars(&self.rope);
        self.cursor = if next <= total {
            next
        } else {
            total
        };
        if let Some(anchor) = self.selection_anchor {
            if anchor == self.cursor {
                self.selection_anchor = None;
            }
        }
    }

    /// Takes the characters from `start` up to `end` out of the buffer and
    /// returns them. Nothing else changes.
    fn remove_range(&mut self, start: usize, end: usize) -> (removed: String)
        requires
            start <= end <= old(self)@.text.len(),
        ensures
            removed@ == old(self)@.text.subrange(start as int, end as int),
            final(self)@ == (DocState {
                text: old(self)@.text.take(start as int) + old(self)@.text.skip(end as int),
                ..old(self)@
            }),
    {
        if start >= end {
            proof {
                let text = old(self)@.text;
                assert(text.take(start as int) + text.skip(end as int) =~= text);
            }
            return String::new();
        }
        let removed = rope_slice_to_string(&self.rope, start, end);
        rope_remove(&mut self.rope, start, end);
        removed
    }

    /// Forgets the oldest edits beyond the history's cap.
    fn trim_undo_history(&mut self)
        ensures
            final(self)@ == (DocState { undo: capped(old(self)@.undo), ..old(self)@ }),
    {
        if self.undo.len() <= UNDO_LIMIT {
            return ;
        }
        let overflow = self.undo.len() - UNDO_LIMIT;
        let kept = self.undo.split_off(overflow);
        self.undo = kept;
        proof {
            assert(records(self.undo@) =~= capped(records(old(self).undo@)));
        }
    }

    /// Records `edit` as the newest undoable edit, as [`DocState::record`]
    /// says.
    fn push_undo(&mut self, edit: Edit)
        ensures
            final(self)@ == old(self)@.record(edit@),
    {
        self.undo.push(edit);
        proof {
            assert(records(self.undo@) =~= records(old(self).undo@).push(edit@));
        }
        self.trim_undo_history();
        self.redo.clear();
        proof {
            assert(records(self.redo@) =~= Seq::<EditRecord>::empty());
        }
    }

    /// Makes `edit` on the buffer, or takes it back, and puts the cursor
    /// where the edit recorded it. Selection and composition end.
    fn apply_edit(&mut self, edit: &Edit, forward: bool)
        requires
            old(self)@.text.len() <= usize::MAX,
            forward ==> edit@.applies_to(old(self)@.text),
            !forward ==> edit@.reverts_on(old(self)@.text),
        ensures
            final(self)@ == (DocState {
                text: if forward {
                    edit@.apply(old(self)@.text)
                } else {
                    edit@.revert(old(self)@.text)
                },
                cursor: if forward {
                    edit@.cursor_after
                } else {
                    edit@.cursor_before
                },
                anchor: None,
                preedit: None,
                ..old(self)@
            }),
    {
        self.preedit = None;
        self.selection_anchor = None;
        let ghost before = rope_text(&self.rope);
        match &edit.kind {
            EditKind::Insert { idx, text } => {
                if forward {
                    rope_insert(&mut self.rope, *idx, text.as_str());
                } else {
                    let len = text.as_str().unicode_len();
                    rope_remove(&mut self.rope, *idx, *idx + len);
                }
            },
            EditKind::Delete { idx, text } => {
                if forward {
                    let len = text.as_str().unicode_len();
                    rope_remove(&mut self.rope, *idx, *idx + len);
                } else {
                    rope_insert(&mut self.rope, *idx, text.as_str());
                }
            },
            EditKind::Replace { idx, deleted, inserted } => {
                if forward {
                    let del_len = deleted.as_str().unicode_len();
                    rope_remove(&mut self.rope, *idx, *idx + del_len);
                    rope_insert(&mut self.rope, *idx, inserted.as_str());
                } else {
                    let ins_len = inserted.as_str().unicode_len();
                    rope_remove(&mut self.rope, *idx, *idx + ins_len);
                    rope_insert(&mut self.rope, *idx, deleted.as_str());
                }
            },
        }
        proof {
            let after = rope_text(&self.rope);
            if forward {
                assert(after =~= edit@.apply(before));
            } else {
                assert(after =~= edit@.revert(before));
            }
        }
        self.cursor = if forward {
            edit.cursor_after
        } else {
            edit.cursor_before
        };
    }

    /// Puts `text` in at the cursor, in place of the selection if there is
    /// one, and records one edit for it. Empty `text` changes nothing.
    pub fn insert_str(&mut self, text: &str)
        requires
            old(self)@.wf(),
            old(self)@.text.len() + text@.len() <= usize::MAX,
        ensures
            final(self)@ == old(self)@.insert_str(text@),
            final(self)@.wf(),
    {
        if text.is_empty() {
            return ;
        }
        proof {
            lemma_insertion_applies(old(self)@, text@);
            lemma_insert_str_wf(old(self)@, text@);
        }
        self.preedit = None;
        let cursor_before = self.cursor;
        let inserted_len = text.unicode_len();
        let edit = match self.selection_range() {
            Some((start, end)) => {
                let deleted = self.remove_range(start, end);
                self.cursor = start;
                rope_insert(&mut self.rope, start, text);
                self.cursor = start + inserted_len;
                Edit {
                    kind: EditKind::Replace {
                        idx: start,
                        deleted,
                        inserted: String::from_str(text),
                    },
                    cursor_before,
                    cursor_after: self.cursor,
                }
            },
            None => {
                rope_insert(&mut self.rope, self.cursor, text);
                self.cursor = self.cursor + inserted_len;
                Edit {
                    kind: EditKind::Insert { idx: cursor_before, text: String::from_str(text) },
                    cursor_before,
                    cursor_after: self.cursor,
                }
            },
        };
        self.selection_anchor = None;
        proof {
            assert(edit@ == old(self)@.insertion(text@));
            assert(rope_text(&self.rope) =~= edit@.apply(old(self)@.text));
        }
        self.push_undo(edit);
        self.dirty = true;
    }

    /// Removes the selection and records one edit for it. Returns whether
    /// there was a selection.
    pub fn delete_selection(&mut self) -> (deleted: bool)
        requires
            old(self)@.wf(),
        ensures
            deleted == old(self)@.selection().is_some(),
            final(self)@ == old(self)@.delete_selection(),
            final(self)@.wf(),
    {
        let (start, end) = match self.selection_range() {
            Some(range) => range,
            None => {
                return false;
            },
        };
        proof {
            lemma_deletion_applies(old(self)@, start as nat, end as nat);
            lemma_delete_selection_wf(old(self)@);
        }
        self.preedit = None;
        let cursor_before = self.cursor;
        let deleted = self.remove_range(start, end);
        self.cursor = start;
        let edit = Edit {
            kind: EditKind::Delete { idx: start, text: deleted },
            cursor_before,
            cursor_after: self.cursor,
        };
        self.selection_anchor = None;
        proof {
            assert(edit@ == old(self)@.deletion(start as nat, end as nat));
            assert(rope_text(&self.rope) =~= edit@.apply(old(self)@.text));
        }
        self.push_undo(edit);
        self.dirty = true;
        true
    }

    /// Removes the selection, or else the character in front of the cursor,
    /// and records one edit for it. At the start of the buffer, with nothing
    /// selected, nothing happens.
    pub fn backspace(&mut self)
        requires
            old(self)@.wf(),
        ensures
            final(self)@ == old(self)@.backspace(),
            final(self)@.wf(),
    {
        proof {
            lemma_backspace_wf(old(self)@);
        }
        let cursor_before = self.cursor;
        let (start, end) = match self.selection_range() {
            Some(range) => range,
            None => {
                if self.cursor > 0 {
                    (self.cursor - 1, self.cursor)
                } else {
                    return ;
                }
            },
        };
        proof {
            lemma_deletion_applies(old(self)@, start as nat, end as nat);
        }
        self.preedit = None;
        let deleted = self.remove_range(start, end);
        self.cursor = start;
        let edit = Edit {
            kind: EditKind::Delete { idx: start, text: deleted },
            cursor_before,
            cursor_after: self.cursor,
        };
        self.selection_anchor = None;
        proof {
            assert(edit@ == old(self)@.deletion(start as nat, end as nat));
            assert(rope_text(&self.rope) =~= edit@.apply(old(self)@.text));
        }
        self.push_undo(edit);
        self.dirty = true;
    }

    /// Takes back the newest recorded edit. Returns whether there was one.
    pub fn undo(&mut self) -> (undone: bool)
        requires
            old(self)@.wf(),
        ensures
            undone == (old(self)@.undo.len() > 0),
            final(self)@ == old(self)@.undo(),
            final(self)@.wf(),
    {
        proof {
            lemma_undo_wf(old(self)@);
        }
        let edit = match self.undo.pop() {
            Some(edit) => edit,
            None => {
                return false;
            },
        };
        proof {
            assert(records(self.undo@) =~= records(old(self).undo@).drop_last());
            assert(edit@ == records(old(self).undo@).last());
        }
        self.apply_edit(&edit, false);
        self.redo.push(edit);
        proof {
            assert(records(self.redo@) =~= records(old(self).redo@).push(edit@));
        }
        self.dirty = true;
        true
    }

    /// Makes the edit that was taken back last once more. Returns whether
    /// there was one.
    pub fn redo(&mut self) -> (redone: bool)
        requires
            old(self)@.wf(),
        ensures
            redone == (old(self)@.redo.len() > 0),
            final(self)@ == old(self)@.redo(),
            final(self)@.wf(),
    {
        proof {
            lemma_redo_wf(old(self)@);
        }
        let edit = match self.redo.pop() {
            Some(edit) => edit,
            None => {
                return false;
            },
        };
        proof {
            assert(records(self.redo@) =~= records(old(self).redo@).drop_last());
            assert(edit@ == records(old(self).redo@).last());
        }
        self.apply_edit(&edit, true);
        self.undo.push(edit);
        proof {
            assert(records(self.undo@) =~= records(old(self).undo@).push(edit@));
        }
        self.trim_undo_history();
        self.dirty = true;
        true
    }
    /// The number of lines in the buffer.
    pub fn line_count(&self) -> (count: usize)
        ensures
            count == line_count(self@.text),
    {
        rope_len_lines(&self.rope)
    }

    /// The length of a line without the line feed that ends it. A line that
    /// the buffer does not have is taken as its last line.
    pub fn line_len_chars(&self, line: usize) -> (len: usize)
        ensures
            len == self@.line_len_at(line as nat),
    {
        let lines = rope_len_lines(&self.rope);
        let line = if line < lines {
            line
        } else {
            lines - 1
        };
        line_len_chars(&self.rope, line)
    }

    /// The offset of a line and column, as [`DocState::offset_of`] says.
    fn offset_at(&self, line: usize, col: usize) -> (offset: usize)
        requires
            self@.text.len() <= usize::MAX,
        ensures
            offset == self@.offset_of(line as nat, col as nat),
            offset <= self@.text.len(),
    {
        let lines = rope_len_lines(&self.rope);
        let line = if line < lines {
            line
        } else {
            lines - 1
        };
        let len = line_len_chars(&self.rope, line);
        let col = if col <= len {
            col
        } else {
            len
        };
        proof {
            lemma_line_end_bounds(self@.text, line as nat);
        }
        rope_line_to_char(&self.rope, line) + col
    }

    /// Puts the cursor on a line and column, both brought into the buffer:
    /// the line to the last line, the column to the length of that line.
    /// With `extend` the selection reaches from its anchor to the new place.
    /// Returns whether cursor or selection changed.
    pub fn set_cursor_line_col(&mut self, line: usize, col: usize, extend: bool) -> (changed: bool)
        requires
            old(self)@.wf(),
        ensures
            final(self)@ == old(self)@.set_cursor_line_col(line as nat, col as nat, extend),
            changed == (final(self)@.cursor != old(self)@.cursor || final(self)@.selection() != old(self)@.selection()),
            final(self)@.wf(),
    {
        let next = self.offset_at(line, col);
        let before = self.cursor;
        let before_selection = self.selection_range();
        self.set_cursor(next, extend);
        let after_selection = self.selection_range();
        self.cursor != before || !same_range(after_selection, before_selection)
    }

    /// Line and column of the cursor.
    pub fn cursor(&self) -> (position: Cursor)
        ensures
            (position.line as nat, position.col as nat) == self@.position_of(self@.cursor),
    {
        self.cursor_for_char(self.cursor)
    }

    /// Line and column of an offset. An offset beyond the buffer is taken as
    /// its end, so an empty buffer gives line 0, column 0 for every offset.
    pub fn cursor_for_char(&self, char_idx: usize) -> (position: Cursor)
        ensures
            (position.line as nat, position.col as nat) == self@.position_of(char_idx as nat),
            self@.text.len() == 0 ==> position == (Cursor { line: 0, col: 0 }),
            position.line < line_count(self@.text),
    {
        let total_chars = rope_len_chars(&self.rope);
        let at = if char_idx >= total_chars {
            total_chars
        } else {
            char_idx
        };
        proof {
            lemma_newline_count_prefix(self@.text, at as int);
            lemma_line_start_of_line_of(self@.text, at as int);
        }
        let line = rope_char_to_line(&self.rope, at);
        let line_start = rope_line_to_char(&self.rope, line);
        Cursor { line, col: at - line_start }
    }

    /// Moves the cursor one character back, unless it stands at the start.
    pub fn move_left(&mut self, extend: bool)
        requires
            old(self)@.wf(),
        ensures
            final(self)@ == old(self)@.move_left(extend),
            final(self)@.wf(),
    {
        if self.cursor == 0 {
            return ;
        }
        let next = self.cursor - 1;
        self.set_cursor(next, extend);
    }

    /// Moves the cursor one character on, unless it stands at the end.
    pub fn move_right(&mut self, extend: bool)
        requires
            old(self)@.wf(),
        ensures
            final(self)@ == old(self)@.move_right(extend),
            final(self)@.wf(),
    {
        if self.cursor >= rope_len_chars(&self.rope) {
            return ;
        }
        let next = self.cursor + 1;
        self.set_cursor(next, extend);
    }

    /// Moves the cursor one line up, keeping its column as far as the line
    /// above is long. On the first line nothing happens.
    pub fn move_up(&mut self, extend: bool)
        requires
            old(self)@.wf(),
        ensures
            final(self)@ == old(self)@.move_up(extend),
            final(self)@.wf(),
    {
        let position = self.cursor_for_char(self.cursor);
        if position.line == 0 {
            return ;
        }
        let next = self.offset_at(position.line - 1, position.col);
        self.set_cursor(next, extend);
    }

    /// Moves the cursor one line down, keeping its column as far as the line
    /// below is long. On the last line nothing happens.
    pub fn move_down(&mut self, extend: bool)
        requires
            old(self)@.wf(),
        ensures
            final(self)@ == old(self)@.move_down(extend),
            final(self)@.wf(),
    {
        let position = self.cursor_for_char(self.cursor);
        let lines = rope_len_lines(&self.rope);
        if position.line + 1 >= lines {
            return ;
        }
        let next = self.offset_at(position.line + 1, position.col);
        self.set_cursor(next, extend);
    }

    /// Selects the whole buffer, the cursor at its end. In an empty buffer
    /// nothing is selected. Returns whether cursor or selection changed.
    pub fn select_all(&mut self) -> (changed: bool)
        requires
            old(self)@.wf(),
        ensures
            final(self)@ == old(self)@.select_all(),
            changed == (final(self)@.cursor != old(self)@.cursor || final(self)@.selection() != old(self)@.selection()),
            final(self)@.wf(),
    {
        let before_cursor = self.cursor;
        let before_selection = self.selection_range();
        let total_chars = rope_len_chars(&self.rope);
        if total_chars == 0 {
            self.selection_anchor = None;
            self.cursor = 0;
        } else {
            self.selection_anchor = Some(0);
            self.cursor = total_chars;
        }
        let after_selection = self.selection_range();
        self.cursor != before_cursor || !same_range(after_selection, before_selection)
    }

    /// The file that the document belongs to, if it has one.
    pub fn path(&self) -> (path: Option<&PathBuf>)
        ensures
            match path {
                Some(p) => self@.path == Some(*p),
                None => self@.path.is_none(),
            },
    {
        self.path.as_ref()
    }

    /// The encoding that the document was last loaded from or saved in.
    pub fn encoding(&self) -> (encoding: TextEncoding)
        ensures
            encoding == self@.encoding,
    {
        self.encoding
    }

    /// Whether the buffer has changed since it was loaded or saved.
    pub fn is_dirty(&self) -> (dirty: bool)
        ensures
            dirty == self@.dirty,
    {
        self.dirty
    }

    /// Shows `text` as the input method's composition; empty `text` ends the
    /// composition. The buffer is not touched.
    pub fn set_preedit(&mut self, text: String, cursor: Option<(usize, usize)>)
        ensures
            final(self)@ == old(self)@.set_preedit(text@, cursor),
            old(self)@.wf() ==> final(self)@.wf(),
    {
        if text.as_str().is_empty() {
            self.preedit = None;
        } else {
            self.preedit = Some(Preedit { text, cursor });
        }
    }

    /// Ends the composition. The buffer is not touched.
    pub fn clear_preedit(&mut self)
        ensures
            final(self)@ == old(self)@.clear_preedit(),
            old(self)@.wf() ==> final(self)@.wf(),
    {
        self.preedit = None;
    }

    /// Ends the composition and inserts `text` as [`Core::insert_str`] does.
    pub fn commit_preedit(&mut self, text: &str)
        requires
            old(self)@.wf(),
            old(self)@.text.len() + text@.len() <= usize::MAX,
        ensures
            final(self)@ == old(self)@.commit_preedit(text@),
            final(self)@.wf(),
    {
        self.preedit = None;
        self.insert_str(text);
    }

    /// The text to show: the buffer, with the composition spliced in at the
    /// cursor.
    pub fn display_text(&self) -> (shown: String)
        requires
            self@.wf(),
        ensures
            shown@ == self@.display_text(),
    {
        match &self.preedit {
            Some(preedit) => {
                let total = rope_len_chars(&self.rope);
                let mut shown = rope_slice_to_string(&self.rope, 0, self.cursor);
                shown.append(preedit.text.as_str());
                let tail = rope_slice_to_string(&self.rope, self.cursor, total);
                shown.append(tail.as_str());
                proof {
                    assert(shown@ =~= self@.display_text());
                }
                shown
            },
            None => rope_to_string(&self.rope),
        }
    }

    /// The offset at which the input method's candidate window belongs: the
    /// cursor, moved on by the characters of the composition that lie before
    /// the end of its own cursor range.
    pub fn ime_cursor_char(&self) -> (offset: usize)
        requires
            self@.ime_cursor() <= usize::MAX,
        ensures
            offset == self@.ime_cursor(),
    {
        if let Some(preedit) = &self.preedit {
            if let Some((_, end)) = preedit.cursor {
                let in_preedit = chars_before(preedit.text.as_str(), end);
                return self.cursor + in_preedit;
            }
        }
        self.cursor
    }

    /// The first match of `query` at or after `start`, or else, going round,
    /// the first match in the buffer. An empty query or buffer has none.
    pub fn find_next(&self, query: &str, start: usize) -> (found: Option<usize>)
        ensures
            match found {
                Some(at) => next_match(self@.text, query@, start as nat) == Some(at as int),
                None => next_match(self@.text, query@, start as nat).is_none(),
            },
    {
        if query.is_empty() {
            return None;
        }
        let text = rope_to_string(&self.rope);
        if text.as_str().is_empty() {
            return None;
        }
        let total_chars = text.as_str().unicode_len();
        let start = if start <= total_chars {
            start
        } else {
            total_chars
        };
        if let Some(at) = find_in_text(text.as_str(), query, start) {
            return Some(at);
        }
        if start > 0 {
            return find_in_text(text.as_str(), query, 0);
        }
        None
    }

    /// Among the matches that [`find_all_in_text`] finds, the last one that
    /// begins before `start`, or else, going round, the last one in the
    /// buffer. An empty query or buffer has none.
    pub fn find_prev(&self, query: &str, start: usize) -> (found: Option<usize>)
        ensures
            match found {
                Some(at) => prev_match(self@.text, query@, start as nat) == Some(at as int),
                None => prev_match(self@.text, query@, start as nat).is_none(),
            },
    {
        if query.is_empty() {
            return None;
        }
        let text = rope_to_string(&self.rope);
        if text.as_str().is_empty() {
            return None;
        }
        let matches = find_all_in_text(text.as_str(), query);
        if matches.len() == 0 {
            return None;
        }
        let total_chars = text.as_str().unicode_len();
        let from = if start <= total_chars {
            start
        } else {
            total_chars
        };
        let ghost found = offsets_of(matches@);
        let mut k: usize = matches.len();
        proof {
            assert(found.take(k as int) =~= found);
        }
        while k > 0
            invariant
                k <= matches.len(),
                found == offsets_of(matches@),
                found == matches_from(self@.text, query@, 0),
                found.len() > 0,
                query@.len() > 0,
                self@.text.len() > 0,
                from == if start <= self@.text.len() {
                    start as int
                } else {
                    self@.text.len() as int
                },
                last_below(found, from as int) == last_below(found.take(k as int), from as int),
            decreases k,
        {
            proof {
                assert(found.take(k as int).drop_last() =~= found.take(k - 1));
                assert(found.take(k as int).last() == matches[k - 1] as int);
            }
            if matches[k - 1] < from {
                return Some(matches[k - 1]);
            }
            k = k - 1;
        }
        Some(matches[matches.len() - 1])
    }

    /// Replaces the document by `text`, which was read in `encoding`.
    /// Cursor, selection, composition and history start afresh, and the
    /// document is not dirty; the path stays.
    pub fn load_text(&mut self, text: &str, encoding: TextEncoding)
        ensures
            final(self)@ == old(self)@.loaded(text@, encoding),
            final(self)@.wf(),
    {
        self.rope = rope_from_str(text);
        // The rope counts its characters: their number is one that the
        // machine can hold.
        let _ = rope_len_chars(&self.rope);
        self.cursor = 0;
        self.selection_anchor = None;
        self.preedit = None;
        self.undo.clear();
        self.redo.clear();
        self.encoding = encoding;
        self.dirty = false;
        proof {
            assert(records(self.undo@) =~= Seq::<EditRecord>::empty());
            assert(records(self.redo@) =~= Seq::<EditRecord>::empty());
        }
    }

    /// Replaces the document by the text that `bytes` hold: a byte-order
    /// mark picks the encoding, UTF-8 where there is none, and the bytes
    /// behind it are decoded and loaded as [`Core::load_text`] says. Returns
    /// the encoding. Loading as such never fails.
    pub fn load_from_bytes(&mut self, bytes: &[u8]) -> (result: Result<TextEncoding, CoreError>)
        requires
            bytes@.len() < codec_limit(),
        ensures
            result matches Ok(encoding) && encoding == detected_encoding(bytes@),
            final(self)@ == old(self)@.loaded(loaded_text(bytes@), detected_encoding(bytes@)),
            final(self)@.wf(),
    {
        let (outside, bom_len) = match for_bom(bytes) {
            Some(found) => found,
            None => (TextEncoding::Utf8.encoding(), 0),
        };
        let encoding = match TextEncoding::from_encoding(outside) {
            Some(encoding) => encoding,
            None => TextEncoding::Utf8,
        };
        let payload = slice_subrange(bytes, bom_len, bytes.len());
        proof {
            assert(bytes@.subrange(bom_len as int, bytes@.len() as int) =~= bytes@.skip(
                bom_len as int,
            ));
            assert(bytes@.skip(0) =~= bytes@);
        }
        let decoded = decode(encoding.encoding(), payload);
        self.load_text(decoded.as_str(), encoding);
        Ok(encoding)
    }

    /// The bytes of a file in `encoding` whose text is written as `payload`:
    /// the encoding's byte-order mark, then the payload.
    pub fn frame_payload(encoding: TextEncoding, payload: &[u8]) -> (bytes: Vec<u8>)
        ensures
            bytes@ == bom_of(encoding) + payload@,
    {
        let mut output: Vec<u8> = Vec::new();
        output.extend_from_slice(encoding.bom());
        output.extend_from_slice(payload);
        proof {
            assert(output@ =~= bom_of(encoding) + payload@);
        }
        output
    }

    /// The bytes of a file that holds `text` in `encoding`: the encoding's
    /// byte-order mark, then the text in that encoding.
    pub fn encode_text(text: &str, encoding: TextEncoding) -> (bytes: Vec<u8>)
        requires
            encoding == TextEncoding::ShiftJis ==> encode_utf8(text@).len() < codec_limit(),
        ensures
            bytes@ == encoded(text@, encoding),
    {
        let payload = match encoding {
            TextEncoding::Utf16Le => encode_utf16(text, false),
            TextEncoding::Utf16Be => encode_utf16(text, true),
            _ => encode(encoding.encoding(), text),
        };
        Core::frame_payload(encoding, payload.as_slice())
    }

    /// Notes that the document was saved at `path` in `encoding`: it is no
    /// longer dirty.
    pub fn mark_saved(&mut self, path: PathBuf, encoding: TextEncoding)
        ensures
            final(self)@ == old(self)@.mark_saved(path, encoding),
            old(self)@.wf() ==> final(self)@.wf(),
    {
        self.path = Some(path);
        self.encoding = encoding;
        self.dirty = false;
    }

    /// Sets or forgets the file that the document belongs to.
    pub fn set_path(&mut self, path: Option<PathBuf>)
        ensures
            final(self)@ == (DocState { path, ..old(self)@ }),
            old(self)@.wf() ==> final(self)@.wf(),
    {
        self.path = path;
    }

    /// Sets the encoding that the document is to be saved in.
    pub fn set_encoding(&mut self, encoding: TextEncoding)
        ensures
            final(self)@ == (DocState { encoding, ..old(self)@ }),
            old(self)@.wf() ==> final(self)@.wf(),
    {
        self.encoding = encoding;
    }
}

} // verus!
