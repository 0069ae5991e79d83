//! Why the edit history can always be replayed: the lemmas that carry the
//! document's invariant from one state to the next.

use crate::model::{capped, undoable, DocState, EditRecord, UNDO_LIMIT};
use vstd::prelude::*;

verus! {

/// An edit that was made on a text can be taken back from the result, and
/// taking it back gives the text again.
pub proof fn lemma_apply_then_revert(edit: EditRecord, text: Seq<char>)
    requires
        edit.applies_to(text),
        text.len() <= usize::MAX,
    ensures
        edit.reverts_on(edit.apply(text)),
        edit.revert(edit.apply(text)) == text,
{
    let i = edit.idx() as int;
    let after = edit.apply(text);
    assert(after.subrange(i, i + edit.added().len()) =~= edit.added());
    assert(edit.revert(after) =~= text);
}

/// An edit that was taken back from a text can be made again on the result,
/// and making it again gives the text again.
pub proof fn lemma_revert_then_apply(edit: EditRecord, text: Seq<char>)
    requires
        edit.reverts_on(text),
        text.len() <= usize::MAX,
    ensures
        edit.applies_to(edit.revert(text)),
        edit.apply(edit.revert(text)) == text,
{
    let i = edit.idx() as int;
    let before = edit.revert(text);
    assert(before.subrange(i, i + edit.removed().len()) =~= edit.removed());
    assert(edit.apply(before) =~= text);
}

/// Forgetting the oldest edits leaves the others undoable.
pub proof fn lemma_undoable_skip(text: Seq<char>, stack: Seq<EditRecord>, k: int)
    requires
        undoable(text, stack),
        0 <= k <= stack.len(),
    ensures
        undoable(text, stack.skip(k)),
    decreases stack.len(),
{
    if k < stack.len() {
        let rest = stack.skip(k);
        assert(rest.last() == stack.last());
        assert(rest.drop_last() =~= stack.drop_last().skip(k));
        lemma_undoable_skip(stack.last().revert(text), stack.drop_last(), k);
    }
}

/// Capping a history leaves it undoable, and no longer than the cap.
pub proof fn lemma_undoable_capped(text: Seq<char>, stack: Seq<EditRecord>)
    requires
        undoable(text, stack),
    ensures
        undoable(text, capped(stack)),
        capped(stack).len() <= UNDO_LIMIT,
{
    if stack.len() > UNDO_LIMIT {
        lemma_undoable_skip(text, stack, stack.len() - UNDO_LIMIT);
    }
}

/// Making an edit that applies, and recording it, keeps the document well
/// formed.
pub proof fn lemma_commit_wf(s: DocState, edit: EditRecord)
    requires
        s.wf(),
        edit.applies_to(s.text),
    ensures
        s.commit(edit).wf(),
{
    lemma_apply_then_revert(edit, s.text);
    let after = edit.apply(s.text);
    let pushed = s.undo.push(edit);
    assert(pushed.drop_last() =~= s.undo);
    assert(undoable(after, pushed));
    lemma_undoable_capped(after, pushed);
}

/// The edit that `insert_str` makes applies to the text it is made on.
pub proof fn lemma_insertion_applies(s: DocState, text: Seq<char>)
    requires
        s.wf(),
        s.text.len() + text.len() <= usize::MAX,
    ensures
        s.insertion(text).applies_to(s.text),
{
    let edit = s.insertion(text);
    match s.selection() {
        Some((start, end)) => {
            assert(edit.removed() == s.text.subrange(start as int, end as int));
        },
        None => {
            assert(s.text.subrange(s.cursor as int, s.cursor as int) =~= edit.removed());
        },
    }
}

/// The edit that removes a range of the text applies to that text.
pub proof fn lemma_deletion_applies(s: DocState, start: nat, end: nat)
    requires
        s.wf(),
        start <= end <= s.text.len(),
    ensures
        s.deletion(start, end).applies_to(s.text),
{
}

/// Inserting keeps the document well formed.
pub proof fn lemma_insert_str_wf(s: DocState, text: Seq<char>)
    requires
        s.wf(),
        s.text.len() + text.len() <= usize::MAX,
    ensures
        s.insert_str(text).wf(),
{
    if text.len() > 0 {
        lemma_insertion_applies(s, text);
        lemma_commit_wf(s, s.insertion(text));
    }
}

/// Deleting the selection keeps the document well formed.
pub proof fn lemma_delete_selection_wf(s: DocState)
    requires
        s.wf(),
    ensures
        s.delete_selection().wf(),
{
    match s.selection() {
        Some((start, end)) => {
            lemma_deletion_applies(s, start, end);
            lemma_commit_wf(s, s.deletion(start, end));
        },
        None => {},
    }
}

/// Backspace keeps the document well formed.
pub proof fn lemma_backspace_wf(s: DocState)
    requires
        s.wf(),
    ensures
        s.backspace().wf(),
{
    match s.selection() {
        Some((start, end)) => {
            lemma_deletion_applies(s, start, end);
            lemma_commit_wf(s, s.deletion(start, end));
        },
        None => {
            if s.cursor > 0 {
                lemma_deletion_applies(s, (s.cursor - 1) as nat, s.cursor);
                lemma_commit_wf(s, s.deletion((s.cursor - 1) as nat, s.cursor));
            }
        },
    }
}

/// Undoing keeps the document well formed.
pub proof fn lemma_undo_wf(s: DocState)
    requires
        s.wf(),
    ensures
        s.undo().wf(),
{
    if s.undo.len() > 0 {
        let edit = s.undo.last();
        lemma_revert_then_apply(edit, s.text);
        assert(s.redo.push(edit).drop_last() =~= s.redo);
    }
}

/// Redoing keeps the document well formed, and drops nothing from the
/// history: what can be undone and what can be redone together never
/// exceed the cap.
pub proof fn lemma_redo_wf(s: DocState)
    requires
        s.wf(),
    ensures
        s.redo().wf(),
        s.redo.len() > 0 ==> s.redo().undo == s.undo.push(s.redo.last()),
{
    if s.redo.len() > 0 {
        let edit = s.redo.last();
        lemma_apply_then_revert(edit, s.text);
        assert(s.undo.push(edit).drop_last() =~= s.undo);
    }
}

} // verus!
