//! Laws of the document engine, proved over its model.

use crate::codec::{
    bom_at_start, bom_of, detected_encoding, encoded, loaded_text, payload_of, TextEncoding,
};
use crate::history::{
    lemma_apply_then_revert, lemma_commit_wf, lemma_deletion_applies, lemma_insertion_applies,
    lemma_revert_then_apply, lemma_undo_wf,
};
use crate::lines::{
    lemma_line_end_bounds, lemma_line_start_follows_newline, lemma_line_start_monotone,
    lemma_line_start_next, lemma_line_start_of_line_of, lemma_newline_count_monotone,
    lemma_newline_count_prefix, line_count, line_len, line_of, line_start,
};
use crate::model::{capped, Change, DocState, EditRecord, UNDO_LIMIT};
use crate::search::{matches_at, matches_from};
use crate::utf16::{
    char_utf16_bytes, lemma_utf16_first_bytes, lemma_utf16_text_of_bytes, unit_bytes, utf16_bytes,
};
use crate::utf8::{law_utf8_len_is_encoded_length, utf8_len};
use vstd::prelude::*;
use vstd::utf8::{
    char_is_scalar, encode_scalar, encode_utf8, encode_utf8_decode_utf8, encode_utf8_valid_utf8,
    has_width_1_encoding, has_width_2_encoding, has_width_3_encoding, is_ascii_chars,
};

verus! {

/// An operation that changes the buffer.
pub enum Op {
    /// `insert_str` with the given text.
    Insert(Seq<char>),
    /// `backspace`.
    Backspace,
    /// `delete_selection`.
    DeleteSelection,
}

/// The state after `op` was carried out in state `s`.
pub open spec fn step(s: DocState, op: Op) -> DocState {
    match op {
        Op::Insert(text) => s.insert_str(text),
        Op::Backspace => s.backspace(),
        Op::DeleteSelection => s.delete_selection(),
    }
}

/// Whether `op` has something to do in state `s`: text to insert that the
/// buffer has room for, or something to delete.
pub open spec fn changes(s: DocState, op: Op) -> bool {
    match op {
        Op::Insert(text) => text.len() > 0 && s.text.len() + text.len() <= usize::MAX,
        Op::Backspace => s.selection().is_some() || s.cursor > 0,
        Op::DeleteSelection => s.selection().is_some(),
    }
}

/// The edit that `op` records in state `s`, where it has something to do.
pub open spec fn edit_of(s: DocState, op: Op) -> EditRecord {
    match op {
        Op::Insert(text) => s.insertion(text),
        _ => match s.selection() {
            Some((start, end)) => s.deletion(start, end),
            None => s.deletion((s.cursor - 1) as nat, s.cursor),
        },
    }
}

/// The state after the operations `ops` were carried out one after the
/// other, starting in state `s`.
pub open spec fn run(s: DocState, ops: Seq<Op>) -> DocState
    decreases ops.len(),
{
    if ops.len() == 0 {
        s
    } else {
        step(run(s, ops.drop_last()), ops.last())
    }
}

/// Whether each of `ops` has something to do in the state in which it is
/// carried out.
pub open spec fn all_change(s: DocState, ops: Seq<Op>) -> bool
    decreases ops.len(),
{
    ops.len() > 0 ==> all_change(s, ops.drop_last()) && changes(
        run(s, ops.drop_last()),
        ops.last(),
    )
}

/// The state after `n` calls of `undo`.
pub open spec fn undo_times(s: DocState, n: nat) -> DocState
    decreases n,
{
    if n == 0 {
        s
    } else {
        undo_times(s.undo(), (n - 1) as nat)
    }
}

/// The state after `n` calls of `redo`.
pub open spec fn redo_times(s: DocState, n: nat) -> DocState
    decreases n,
{
    if n == 0 {
        s
    } else {
        redo_times(s, (n - 1) as nat).redo()
    }
}

/// An operation that has something to do makes and records exactly one
/// edit: the document is dirty after it, nothing is selected or composed,
/// and nothing can be redone.
pub proof fn law_op_records_one_edit(s: DocState, op: Op)
    requires
        s.wf(),
        changes(s, op),
    ensures
        step(s, op) == s.commit(edit_of(s, op)),
        edit_of(s, op).applies_to(s.text),
        edit_of(s, op).cursor_before == s.cursor,
        step(s, op).wf(),
        step(s, op).undo.len() > 0,
        step(s, op).undo.last() == edit_of(s, op),
        step(s, op).cursor == edit_of(s, op).cursor_after,
        step(s, op).redo.len() == 0,
        step(s, op).dirty,
        step(s, op).anchor.is_none(),
        step(s, op).preedit.is_none(),
        step(s, op).undo.drop_last() == if s.undo.len() == UNDO_LIMIT {
            s.undo.skip(1)
        } else {
            s.undo
        },
{
    let edit = edit_of(s, op);
    match op {
        Op::Insert(text) => {
            lemma_insertion_applies(s, text);
        },
        _ => {
            match s.selection() {
                Some((start, end)) => {
                    lemma_deletion_applies(s, start, end);
                },
                None => {
                    lemma_deletion_applies(s, (s.cursor - 1) as nat, s.cursor);
                },
            }
        },
    }
    lemma_commit_wf(s, edit);
    let pushed = s.undo.push(edit);
    assert(capped(pushed).last() == edit);
    if s.undo.len() == UNDO_LIMIT {
        assert(capped(pushed).drop_last() =~= s.undo.skip(1));
    } else {
        assert(capped(pushed).drop_last() =~= s.undo);
    }
}

/// One `undo` after an operation that changed the buffer gives back the
/// text and the cursor from before the operation.
pub proof fn law_undo_inverts_op(s: DocState, op: Op)
    requires
        s.wf(),
        changes(s, op),
    ensures
        step(s, op).undo().text == s.text,
        step(s, op).undo().cursor == s.cursor,
{
    law_op_records_one_edit(s, op);
    lemma_apply_then_revert(edit_of(s, op), s.text);
}

/// One `redo` after an `undo` gives back the text and the history from
/// before the `undo`, and puts the cursor where the edit had left it.
pub proof fn law_redo_inverts_undo(s: DocState)
    requires
        s.wf(),
        s.undo.len() > 0,
    ensures
        s.undo().redo().text == s.text,
        s.undo().redo().cursor == s.undo.last().cursor_after,
        s.undo().redo().undo == s.undo,
        s.undo().redo().redo == s.redo,
{
    let edit = s.undo.last();
    lemma_revert_then_apply(edit, s.text);
    assert(s.redo.push(edit).drop_last() =~= s.redo);
    assert(s.undo.drop_last().push(edit) =~= s.undo);
}

/// With nothing to undo, `undo` changes nothing; with nothing to redo,
/// `redo` changes nothing. No more than `UNDO_LIMIT` edits can ever be
/// undone.
pub proof fn law_history_is_capped(s: DocState)
    requires
        s.wf(),
    ensures
        s.undo.len() <= UNDO_LIMIT,
        s.undo.len() == 0 ==> s.undo() == s,
        s.redo.len() == 0 ==> s.redo() == s,
        undo_times(s, s.undo.len()).undo.len() == 0,
    decreases s.undo.len(),
{
    if s.undo.len() > 0 {
        lemma_undo_wf(s);
        law_history_is_capped(s.undo());
    }
}

/// What `n` calls of `undo` make of text and cursor depends only on the
/// text, the cursor and the `n` newest edits of the history.
pub proof fn lemma_undo_reads_newest(a: DocState, b: DocState, n: nat)
    requires
        a.text == b.text,
        a.cursor == b.cursor,
        n <= a.undo.len(),
        n <= b.undo.len(),
        a.undo.skip(a.undo.len() - n) == b.undo.skip(b.undo.len() - n),
    ensures
        undo_times(a, n).text == undo_times(b, n).text,
        undo_times(a, n).cursor == undo_times(b, n).cursor,
    decreases n,
{
    if n > 0 {
        let ta = a.undo.skip(a.undo.len() - n);
        let tb = b.undo.skip(b.undo.len() - n);
        assert(a.undo.last() == ta[n - 1]);
        assert(b.undo.last() == tb[n - 1]);
        let a1 = a.undo();
        let b1 = b.undo();
        assert(a1.undo.skip(a1.undo.len() - (n - 1)) =~= ta.drop_last());
        assert(b1.undo.skip(b1.undo.len() - (n - 1)) =~= tb.drop_last());
        lemma_undo_reads_newest(a1, b1, (n - 1) as nat);
    }
}

/// Operations that each change the buffer keep the document well formed, and
/// each adds an edit to the history, up to its cap.
pub proof fn lemma_run_wf(s: DocState, ops: Seq<Op>)
    requires
        s.wf(),
        all_change(s, ops),
    ensures
        run(s, ops).wf(),
        ops.len() <= UNDO_LIMIT ==> run(s, ops).undo.len() >= ops.len(),
        ops.len() > 0 ==> run(s, ops).cursor == run(s, ops).undo.last().cursor_after,
    decreases ops.len(),
{
    if ops.len() > 0 {
        lemma_run_wf(s, ops.drop_last());
        law_op_records_one_edit(run(s, ops.drop_last()), ops.last());
    }
}

/// After any operations that each changed the buffer, no more of them than
/// the history holds, as many calls of `undo` give back the text and the
/// cursor from before the first of them.
pub proof fn law_undo_inverts_ops(s: DocState, ops: Seq<Op>)
    requires
        s.wf(),
        all_change(s, ops),
        ops.len() <= UNDO_LIMIT,
    ensures
        undo_times(run(s, ops), ops.len()).text == s.text,
        undo_times(run(s, ops), ops.len()).cursor == s.cursor,
    decreases ops.len(),
{
    if ops.len() > 0 {
        let n = ops.len();
        let before = run(s, ops.drop_last());
        let after = run(s, ops);
        law_undo_inverts_ops(s, ops.drop_last());
        lemma_run_wf(s, ops.drop_last());
        law_op_records_one_edit(before, ops.last());
        law_undo_inverts_op(before, ops.last());
        let back = after.undo();
        if before.undo.len() == UNDO_LIMIT {
            assert(before.undo.skip(1).skip(before.undo.len() - 1 - (n - 1)) =~= before.undo.skip(
                before.undo.len() - (n - 1),
            ));
        }
        lemma_undo_reads_newest(back, before, (n - 1) as nat);
    }
}

/// After `n` calls of `undo`, each with an edit to take back, `n` calls of
/// `redo` give back the text and the history from before, and put the cursor
/// where the newest edit had left it.
pub proof fn law_redo_inverts_undos(s: DocState, n: nat)
    requires
        s.wf(),
        n <= s.undo.len(),
    ensures
        redo_times(undo_times(s, n), n).text == s.text,
        redo_times(undo_times(s, n), n).undo == s.undo,
        redo_times(undo_times(s, n), n).redo == s.redo,
        n > 0 ==> redo_times(undo_times(s, n), n).cursor == s.undo.last().cursor_after,
    decreases n,
{
    if n > 0 {
        let back = s.undo();
        lemma_undo_wf(s);
        law_redo_inverts_undos(back, (n - 1) as nat);
        let again = redo_times(undo_times(back, (n - 1) as nat), (n - 1) as nat);
        let edit = s.undo.last();
        lemma_revert_then_apply(edit, s.text);
        assert(again.redo == s.redo.push(edit));
        assert(s.redo.push(edit).drop_last() =~= s.redo);
        assert(s.undo.drop_last().push(edit) =~= s.undo);
    }
}

/// The undo/redo law: after operations that each changed the buffer, no more
/// of them than the history holds, as many calls of `undo` give back the
/// text and the cursor from before, and as many calls of `redo` after that
/// give back the text and the cursor from after.
pub proof fn law_undo_redo(s: DocState, ops: Seq<Op>)
    requires
        s.wf(),
        all_change(s, ops),
        ops.len() <= UNDO_LIMIT,
    ensures
        undo_times(run(s, ops), ops.len()).text == s.text,
        undo_times(run(s, ops), ops.len()).cursor == s.cursor,
        redo_times(undo_times(run(s, ops), ops.len()), ops.len()).text == run(s, ops).text,
        redo_times(undo_times(run(s, ops), ops.len()), ops.len()).cursor == run(s, ops).cursor,
{
    law_undo_inverts_ops(s, ops);
    lemma_run_wf(s, ops);
    law_redo_inverts_undos(run(s, ops), ops.len());
}

/// Inserting splices: the text goes in at the cursor, or in place of the
/// selection, the cursor stands behind it, nothing is selected any more, and
/// one edit is recorded, a replacement where there was a selection.
pub proof fn law_insert_str_splices(s: DocState, text: Seq<char>)
    requires
        s.wf(),
        text.len() > 0,
        s.text.len() + text.len() <= usize::MAX,
    ensures
        match s.selection() {
            Some((start, end)) => {
                &&& s.insert_str(text).text == s.text.take(start as int) + text + s.text.skip(
                    end as int,
                )
                &&& s.insert_str(text).cursor == start + text.len()
                &&& s.insert_str(text).undo.last().change == (Change::Replace {
                    idx: start,
                    deleted: s.text.subrange(start as int, end as int),
                    inserted: text,
                })
            },
            None => {
                &&& s.insert_str(text).text == s.text.take(s.cursor as int) + text + s.text.skip(
                    s.cursor as int,
                )
                &&& s.insert_str(text).cursor == s.cursor + text.len()
                &&& s.insert_str(text).undo.last().change == (Change::Insert {
                    idx: s.cursor,
                    text,
                })
            },
        },
        s.insert_str(text).selection().is_none(),
        s.insert_str(text).undo().text == s.text,
        s.insert_str(text).undo().cursor == s.cursor,
{
    law_op_records_one_edit(s, Op::Insert(text));
    law_undo_inverts_op(s, Op::Insert(text));
    match s.selection() {
        Some((start, end)) => {
            assert(s.text.skip((start + (end - start)) as int) == s.text.skip(end as int));
        },
        None => {
            assert(s.text.skip((s.cursor + 0) as int) == s.text.skip(s.cursor as int));
        },
    }
}

/// Whether the match at place `k` of `found` ends before the next begins.
pub open spec fn ends_before_next(found: Seq<int>, len: nat, k: int) -> bool {
    found[k] + len <= found[k + 1]
}

/// Whether offset `j` lies within one of the matches `found`, each `len`
/// long.
pub open spec fn lies_within(found: Seq<int>, len: nat, j: int) -> bool {
    exists|k: int| 0 <= k < found.len() && #[trigger] found[k] <= j < found[k] + len
}

/// Whether the offset at place `k` of `found` is a match of `query` in `text`
/// at or after `from`.
pub open spec fn is_match_at_place(
    text: Seq<char>,
    query: Seq<char>,
    from: int,
    found: Seq<int>,
    k: int,
) -> bool {
    from <= found[k] && matches_at(text, query, found[k])
}

/// Whether `found` are matches of `query` in `text` at or after `from`, none
/// overlapping the next, such that every match at or after `from` lies
/// within one of them.
pub open spec fn disjoint_cover(text: Seq<char>, query: Seq<char>, from: int, found: Seq<int>) -> bool {
    &&& forall|k: int|
        0 <= k < found.len() ==> #[trigger] is_match_at_place(text, query, from, found, k)
    &&& forall|k: int|
        0 <= k < found.len() - 1 ==> #[trigger] ends_before_next(found, query.len(), k)
    &&& forall|j: int|
        from <= j && #[trigger] matches_at(text, query, j) ==> lies_within(found, query.len(), j)
}

/// What a search for all matches finds: each offset is a match, each match
/// ends before the next begins, and every match there is overlaps one of
/// those found or is one of them.
pub proof fn law_matches_are_disjoint_and_cover(text: Seq<char>, query: Seq<char>, from: int)
    requires
        0 <= from,
        query.len() > 0,
    ensures
        disjoint_cover(text, query, from, matches_from(text, query, from)),
    decreases text.len() - from,
{
    let found = matches_from(text, query, from);
    let len = query.len();
    if from + len > text.len() {
    } else if matches_at(text, query, from) {
        let rest = matches_from(text, query, from + len);
        law_matches_are_disjoint_and_cover(text, query, from + len);
        assert(found == seq![from] + rest);
        assert forall|k: int| 0 <= k < found.len() implies #[trigger] is_match_at_place(
            text,
            query,
            from,
            found,
            k,
        ) by {
            if k > 0 {
                assert(found[k] == rest[k - 1]);
                assert(is_match_at_place(text, query, from + len, rest, k - 1));
            }
        }
        assert forall|k: int| 0 <= k < found.len() - 1 implies #[trigger] ends_before_next(
            found,
            len,
            k,
        ) by {
            assert(found[k + 1] == rest[k]);
            assert(is_match_at_place(text, query, from + len, rest, k));
            if k > 0 {
                assert(found[k] == rest[k - 1]);
                assert(ends_before_next(rest, len, k - 1));
            }
        }
        assert forall|j: int| from <= j && #[trigger] matches_at(text, query, j) implies lies_within(
            found,
            len,
            j,
        ) by {
            if j < from + len {
                assert(found[0] <= j < found[0] + len);
            } else {
                assert(lies_within(rest, len, j));
                let k = choose|k: int| 0 <= k < rest.len() && #[trigger] rest[k] <= j < rest[k] + len;
                assert(found[k + 1] == rest[k]);
                assert(found[k + 1] <= j < found[k + 1] + len);
            }
        }
    } else {
        law_matches_are_disjoint_and_cover(text, query, from + 1);
        let rest = matches_from(text, query, from + 1);
        assert(found == rest);
        assert forall|k: int| 0 <= k < found.len() implies #[trigger] is_match_at_place(
            text,
            query,
            from,
            found,
            k,
        ) by {
            assert(is_match_at_place(text, query, from + 1, rest, k));
        }
        assert forall|j: int| from <= j && #[trigger] matches_at(text, query, j) implies lies_within(
            found,
            len,
            j,
        ) by {
            if j > from {
                assert(lies_within(rest, len, j));
            }
        }
    }
}

/// An offset lies in front of the start of the line after its own.
pub proof fn lemma_offset_before_next_line(s: Seq<char>, i: int)
    requires
        0 <= i <= s.len(),
        line_of(s, i) + 1 < line_count(s),
    ensures
        i < line_start(s, line_of(s, i) + 1),
{
    let k = line_of(s, i);
    lemma_line_start_follows_newline(s, k + 1);
    let e = line_start(s, k + 1) as int;
    if e <= i {
        lemma_newline_count_monotone(s, e, i);
    }
}

/// Every offset on a line, up to the line's end, lies on that line.
pub proof fn lemma_line_of_offset_on_line(s: Seq<char>, k: nat, col: nat)
    requires
        k < line_count(s),
        col <= line_len(s, k),
    ensures
        line_start(s, k) + col <= s.len(),
        line_of(s, (line_start(s, k) + col) as int) == k,
{
    lemma_line_end_bounds(s, k);
    let start = line_start(s, k) as int;
    let at = start + col;
    if k > 0 {
        lemma_line_start_follows_newline(s, k);
    } else {
        assert(s.take(0) =~= Seq::<char>::empty());
    }
    lemma_newline_count_monotone(s, start, at);
    lemma_newline_count_prefix(s, at);
    let found = line_of(s, at);
    if found > k {
        lemma_line_start_monotone(s, k + 1, found);
        lemma_line_start_of_line_of(s, at);
        if k + 1 < line_count(s) {
            lemma_line_start_next(s, k);
        }
    }
}

/// Clamping of positions: the position of an offset is that of the offset
/// brought into the buffer. It is a place that the buffer has, and
/// [`DocState::offset_of`] leads back from it. In an empty buffer it is line
/// 0, column 0; at or beyond the end of the buffer it is the end of the last
/// line.
pub proof fn law_position_clamps(s: DocState, offset: nat)
    ensures
        s.position_of(offset) == s.position_of(
            if offset <= s.text.len() {
                offset
            } else {
                s.text.len()
            },
        ),
        s.position_of(offset).0 < line_count(s.text),
        s.position_of(offset).1 <= line_len(s.text, s.position_of(offset).0),
        s.offset_of(s.position_of(offset).0, s.position_of(offset).1) == if offset
            <= s.text.len() {
            offset
        } else {
            s.text.len()
        },
        s.text.len() == 0 ==> s.position_of(offset) == (0nat, 0nat),
        offset >= s.text.len() ==> s.position_of(offset).0 == line_count(s.text) - 1
            && s.position_of(offset).1 == line_len(s.text, s.position_of(offset).0),
{
    let text = s.text;
    let at: int = if offset <= text.len() {
        offset as int
    } else {
        text.len() as int
    };
    let line = line_of(text, at);
    lemma_newline_count_prefix(text, at);
    lemma_line_start_of_line_of(text, at);
    lemma_line_end_bounds(text, line);
    if line + 1 < line_count(text) {
        lemma_offset_before_next_line(text, at);
    }
    if offset >= text.len() {
        assert(text.take(at) =~= text);
    }
}

/// The position of a place that the buffer has is that place.
pub proof fn law_position_of_offset(s: DocState, line: nat, col: nat)
    requires
        line < line_count(s.text),
        col <= line_len(s.text, line),
    ensures
        s.offset_of(line, col) <= s.text.len(),
        s.position_of(s.offset_of(line, col)) == (line, col),
{
    lemma_line_of_offset_on_line(s.text, line, col);
}

/// A composition is shown, not stored: `set_preedit` leaves buffer, cursor
/// and history as they are, and the text to show is the buffer with the
/// composition spliced in at the cursor. Only `commit_preedit` puts text
/// into the buffer, as `insert_str` does, and ends the composition.
pub proof fn law_preedit_is_overlay(
    s: DocState,
    text: Seq<char>,
    cursor: Option<(usize, usize)>,
    committed: Seq<char>,
)
    requires
        s.wf(),
        text.len() > 0,
        s.text.len() + committed.len() <= usize::MAX,
    ensures
        s.set_preedit(text, cursor).text == s.text,
        s.set_preedit(text, cursor).cursor == s.cursor,
        s.set_preedit(text, cursor).undo == s.undo,
        s.set_preedit(text, cursor).dirty == s.dirty,
        s.set_preedit(text, cursor).wf(),
        s.set_preedit(text, cursor).display_text() == s.text.take(s.cursor as int) + text
            + s.text.skip(s.cursor as int),
        s.set_preedit(text, cursor).clear_preedit().display_text() == s.text,
        s.set_preedit(text, cursor).commit_preedit(committed) == s.insert_str(committed).clear_preedit(),
        s.selection().is_none() ==> s.set_preedit(text, cursor).commit_preedit(committed).text
            == s.text.take(s.cursor as int) + committed + s.text.skip(s.cursor as int),
{
    if committed.len() > 0 && s.selection().is_none() {
        assert(s.text.skip((s.cursor + 0) as int) == s.text.skip(s.cursor as int));
    } else if s.selection().is_none() {
        assert(s.text.take(s.cursor as int) + committed + s.text.skip(s.cursor as int) =~= s.text);
    }
}

/// A text that is not empty takes at least one byte.
pub proof fn lemma_utf8_len_positive(text: Seq<char>)
    requires
        text.len() > 0,
    ensures
        utf8_len(text) > 0,
{
}

/// The byte of a character of one byte lies below 0x80.
proof fn lemma_lead_byte_width_1(c: u32)
    by (bit_vector)
    requires
        c <= 0x7F,
    ensures
        ((c & 0x7F) as u8) < 0x80u8,
{
}

/// The first byte of a character of two bytes lies from 0xC0 to 0xDF.
proof fn lemma_lead_byte_width_2(c: u32)
    by (bit_vector)
    ensures
        0xC0u8 <= (0xC0u8 | (((c >> 6) & 0x1F) as u8)) <= 0xDFu8,
{
}

/// The first byte of a character of three bytes lies from 0xE0 to 0xEF, and
/// only U+FEFF is written as EF BB BF.
proof fn lemma_lead_byte_width_3(c: u32)
    by (bit_vector)
    requires
        c <= 0xFFFF,
    ensures
        0xE0u8 <= (0xE0u8 | (((c >> 12) & 0x0F) as u8)) <= 0xEFu8,
        (0xE0u8 | (((c >> 12) & 0x0F) as u8)) == 0xEFu8 && (0x80u8 | (((c >> 6) & 0x3F) as u8))
            == 0xBBu8 && (0x80u8 | ((c & 0x3F) as u8)) == 0xBFu8 ==> c == 0xFEFF,
{
}

/// The first byte of a character of four bytes lies from 0xF0 to 0xF7.
proof fn lemma_lead_byte_width_4(c: u32)
    by (bit_vector)
    ensures
        0xF0u8 <= (0xF0u8 | (((c >> 18) & 0x7) as u8)) <= 0xF7u8,
{
}

/// The UTF-8 bytes of a text begin with a byte-order mark only where the
/// text begins with the character U+FEFF, and then with the mark of UTF-8.
pub proof fn lemma_utf8_bom(text: Seq<char>)
    ensures
        match bom_at_start(encode_utf8(text)) {
            Some((kind, _)) => kind == TextEncoding::Utf8 && text.len() > 0 && text[0]
                == '\u{FEFF}',
            None => true,
        },
{
    if text.len() > 0 {
        let c = text[0] as u32;
        char_is_scalar(text[0]);
        let first = encode_scalar(c);
        let bytes = encode_utf8(text);
        assert(bytes == first + encode_utf8(text.drop_first()));
        assert(bytes[0] == first[0]);
        if has_width_1_encoding(c) {
            lemma_lead_byte_width_1(c);
            assert(bytes[0] < 0x80);
        } else if has_width_2_encoding(c) {
            lemma_lead_byte_width_2(c);
            assert(0xC0 <= bytes[0] <= 0xDF);
        } else if has_width_3_encoding(c) {
            lemma_lead_byte_width_3(c);
            assert(bytes[1] == first[1]);
            assert(bytes[2] == first[2]);
            assert(0xE0 <= bytes[0] <= 0xEF);
            assert(bytes[0] == 0xEF && bytes[1] == 0xBB && bytes[2] == 0xBF ==> c == 0xFEFF);
            if c == 0xFEFF {
                vstd::utf8::char_u32_cast(text[0], c);
                assert(text[0] == '\u{FEFF}');
            }
        } else {
            lemma_lead_byte_width_4(c);
            assert(0xF0 <= bytes[0] <= 0xF7);
        }
    } else {
        assert(encode_utf8(text).len() == 0);
    }
}

/// A file written in an encoding is read as written in that encoding, for
/// each of the encodings whose files can be told by their first bytes: all
/// but Shift_JIS, whose files carry no mark and are read as UTF-8.
pub proof fn law_load_reports_encoding(text: Seq<char>, encoding: TextEncoding)
    requires
        encoding != TextEncoding::ShiftJis,
    ensures
        detected_encoding(encoded(text, encoding)) == encoding,
{
    let bytes = encoded(text, encoding);
    if encoding == TextEncoding::Utf8 {
        lemma_utf8_bom(text);
        assert(bytes =~= encode_utf8(text));
    }
}

/// The UTF-16 bytes of a text begin with a byte-order mark only where the
/// text begins with U+FEFF or U+FFFE, whose bytes are the marks of UTF-16,
/// or with the character whose two bytes are the first two of the mark of
/// UTF-8.
pub proof fn lemma_utf16_bom(text: Seq<char>, big_endian: bool)
    ensures
        bom_at_start(utf16_bytes(text, big_endian)).is_some() ==> text.len() > 0 && (text[0]
            == '\u{FEFF}' || text[0] == '\u{FFFE}' || text[0] == if big_endian {
            '\u{EFBB}'
        } else {
            '\u{BBEF}'
        }),
{
    if text.len() > 0 {
        let c = text[0];
        let v = c as u32;
        char_is_scalar(c);
        lemma_utf16_first_bytes(text, big_endian);
        let first = char_utf16_bytes(c, big_endian);
        if v < 0x10000 {
            assert(first == unit_bytes(v as int, big_endian));
            if v == 0xFEFF || v == 0xFFFE || v == 0xEFBB || v == 0xBBEF {
                vstd::utf8::char_u32_cast(c, v);
            }
        } else {
            let high = 0xD800 + (v - 0x10000) / 0x400;
            assert(first[0] == unit_bytes(high, big_endian)[0]);
            assert(first[1] == unit_bytes(high, big_endian)[1]);
        }
    } else {
        assert(utf16_bytes(text, big_endian).len() == 0);
    }
}

/// Whether loading gives back a text that was written in an encoding. An
/// empty text comes back from every encoding. Any other text comes back
/// unless the bytes it is written as begin with a byte-order mark of
/// their own, which loading would take for a mark; and from Shift_JIS,
/// whose files are read as UTF-8, only plain ASCII comes back.
pub open spec fn round_trips(text: Seq<char>, encoding: TextEncoding) -> bool {
    text.len() == 0 || (bom_at_start(payload_of(encoding, text)).is_none() && (encoding
        != TextEncoding::ShiftJis || is_ascii_chars(text)))
}

/// The round trip of the codec: loading the bytes that a text was written as
/// gives back the text.
pub proof fn law_load_recovers_text(text: Seq<char>, encoding: TextEncoding)
    requires
        round_trips(text, encoding),
    ensures
        loaded_text(encoded(text, encoding)) == text,
{
    let bytes = encoded(text, encoding);
    let payload = payload_of(encoding, text);
    if text.len() == 0 {
        assert(encode_utf8(text) =~= Seq::<u8>::empty());
        assert(utf16_bytes(text, false) =~= Seq::<u8>::empty());
        assert(utf16_bytes(text, true) =~= Seq::<u8>::empty());
        if encoding == TextEncoding::Utf16Le || encoding == TextEncoding::Utf16Be {
            assert(bytes.len() == 2);
            assert(bytes.skip(2) =~= Seq::<u8>::empty());
        } else {
            assert(bytes =~= Seq::<u8>::empty());
        }
    } else if encoding == TextEncoding::Utf16Le || encoding == TextEncoding::Utf16Be {
        let big_endian = encoding == TextEncoding::Utf16Be;
        assert(payload == utf16_bytes(text, big_endian));
        lemma_utf16_first_bytes(text, big_endian);
        lemma_utf16_text_of_bytes(text, big_endian);
        assert(bytes.len() >= 2);
        assert(bytes[0] == bom_of(encoding)[0]);
        assert(bytes[1] == bom_of(encoding)[1]);
        assert(bytes.skip(2) =~= payload);
    } else {
        assert(bytes =~= encode_utf8(text));
        encode_utf8_valid_utf8(text);
        encode_utf8_decode_utf8(text);
        assert(encode_utf8(text).len() > 0) by {
            law_utf8_len_is_encoded_length(text);
            lemma_utf8_len_positive(text);
        }
    }
}

/// The round trip of the three encodings that a file's first bytes tell: a
/// text that is written in one of them and loaded again comes back as it
/// was, and the encoding with it, unless the text begins with one of the
/// few characters whose bytes are themselves a byte-order mark.
pub proof fn law_round_trip(text: Seq<char>, encoding: TextEncoding)
    requires
        encoding != TextEncoding::ShiftJis,
        text.len() > 0 ==> text[0] != '\u{FEFF}' && text[0] != '\u{FFFE}' && text[0] != '\u{EFBB}'
            && text[0] != '\u{BBEF}',
    ensures
        detected_encoding(encoded(text, encoding)) == encoding,
        loaded_text(encoded(text, encoding)) == text,
{
    law_load_reports_encoding(text, encoding);
    lemma_utf8_bom(text);
    lemma_utf16_bom(text, false);
    lemma_utf16_bom(text, true);
    law_load_recovers_text(text, encoding);
}

} // verus!
