//! What the editor keeps around its open documents: the tabs, the state of a
//! search, and the requests that are under way for a document.
//!
//! Reading, writing and searching are done elsewhere and take time. Each
//! request gets a number, the document remembers the number of the newest
//! request of each kind, and an answer is taken only if it bears that
//! number: an answer that comes late is dropped.

use crate::codec::{codec_limit, detected_encoding, label_of, loaded_text, TextEncoding};
use crate::document::Core;
use crate::error::CoreError;
use crate::format::{
    build_search_effective_query, current_match, current_match_index, decimal, effective_query,
    opt_view, push_decimal, push_decimal_wide,
};
use crate::laws::law_position_clamps;
use crate::lines::{line_count, line_len};
use crate::search::{next_match, prev_match};
use crate::model::{Cursor, DocState};
use std::path::PathBuf;
use vstd::prelude::*;
use vstd::string::StrSliceExecFns;
use vstd::string::StringExecFns;

verus! {

/// What is known of the search for a query in one document.
#[derive(Debug)]
pub struct SearchState {
    pub query: String,
    pub matches: Vec<usize>,
    pub pending: bool,
}

impl SearchState {
    /// No query, no matches, nothing under way.
    pub fn new() -> (state: SearchState)
        ensures
            state.query@.len() == 0,
            state.matches@.len() == 0,
            !state.pending,
    {
        SearchState { query: String::new(), matches: Vec::new(), pending: false }
    }
}

impl Default for SearchState {
    fn default() -> (state: SearchState)
        ensures
            state.query@.len() == 0,
            state.matches@.len() == 0,
            !state.pending,
    {
        SearchState::new()
    }
}

/// One tab: a document, the requests that are under way for it, and the
/// state of its search.
pub struct Document {
    pub id: u64,
    pub core: Core,
    pub active_open_request: Option<u64>,
    pub active_save_request: Option<u64>,
    pub active_search_request: Option<u64>,
    pub search_state: SearchState,
}

/// A search that is to be carried out: the text to search in, the query,
/// and the number that its answer must bear.
pub struct SearchRequest {
    pub request_id: u64,
    pub query: String,
    pub text: String,
}

/// What became of the answer to a request to open a file.
pub enum OpenOutcome {
    /// The answer came late and was dropped.
    Stale,
    /// The file's content is the document now.
    Loaded(TextEncoding),
    /// The file could not be read; the document is as it was.
    Failed(CoreError),
}

/// What became of the answer to a request to save a document.
pub enum SaveOutcome {
    /// The answer came late and was dropped.
    Stale,
    /// The document is saved.
    Saved,
    /// The file could not be written; the document is as it was.
    Failed(CoreError),
}

/// A direction in which the cursor moves.
#[derive(Debug, Clone, Copy, PartialEq, Eq, Structural)]
pub enum Direction {
    Left,
    Right,
    Up,
    Down,
}

/// The name of a tab: the file's name, or `Untitled` for a document
/// without one, and a star behind it where the document is dirty.
pub open spec fn tab_label(name: Option<Seq<char>>, dirty: bool) -> Seq<char> {
    (match name {
        Some(n) => n,
        None => "Untitled"@,
    }) + if dirty {
        "*"@
    } else {
        Seq::empty()
    }
}

/// Whether `label` is a name for the tab of a document in state `s`.
pub open spec fn is_label_of(label: Seq<char>, s: DocState) -> bool {
    if s.path.is_none() {
        label == tab_label(None, s.dirty)
    } else {
        exists|name: Option<Seq<char>>| label == tab_label(name, s.dirty)
    }
}

/// One entry of the tab bar: the tab's number, counted from 1, and its
/// label, in square brackets for the active tab.
pub open spec fn tab_entry(index: nat, label: Seq<char>, active: bool) -> Seq<char> {
    if active {
        "["@ + decimal(index + 1) + ":"@ + label + "]"@
    } else {
        decimal(index + 1) + ":"@ + label
    }
}

/// The tab bar for the first `count` of `labels`: their entries, two spaces
/// between them.
pub open spec fn tab_bar(labels: Seq<Seq<char>>, active: nat, count: nat) -> Seq<char>
    decreases count,
{
    if count == 0 {
        Seq::empty()
    } else if count == 1 {
        tab_entry(0, labels[0], active == 0)
    } else {
        tab_bar(labels, active, (count - 1) as nat) + "  "@ + tab_entry(
            (count - 1) as nat,
            labels[count - 1],
            active == count - 1,
        )
    }
}

/// The line below the search bar: how many matches there are and which of
/// them the cursor is at, or that the search is still under way.
pub open spec fn search_nav_text(
    cursor: nat,
    state_query: Seq<char>,
    matches: Seq<usize>,
    pending: bool,
    query: Seq<char>,
    preedit: Option<Seq<char>>,
) -> Seq<char> {
    let effective = effective_query(query, preedit);
    let hint = " (Enter: next, Shift+Enter: prev)"@;
    if effective.len() == 0 {
        "Matches: 0/0"@ + hint
    } else if pending || state_query != effective {
        "Matches: --/--  Searching..."@ + hint
    } else {
        "Matches: "@ + decimal(current_match(matches, cursor, effective.len())) + "/"@ + decimal(
            matches.len(),
        ) + hint
    }
}

/// The part of line `line` that a selection from line `start_line`, column
/// `start_col` to line `end_line`, column `end_col` covers, as the columns
/// at which it starts and ends.
pub open spec fn span_on(
    text: Seq<char>,
    line: nat,
    start: (nat, nat),
    end: (nat, nat),
) -> (nat, nat) {
    (
        if line == start.0 {
            start.1
        } else {
            0
        },
        if line == end.0 {
            end.1
        } else {
            line_len(text, line)
        },
    )
}

/// The parts of the lines from `line` to the selection's last line that the
/// selection covers, each as line, first column and end column. Lines of
/// which it covers nothing are left out.
pub open spec fn spans_from(text: Seq<char>, line: nat, start: (nat, nat), end: (nat, nat)) -> Seq<
    (nat, nat, nat),
>
    decreases end.0 + 1 - line,
{
    if line > end.0 {
        Seq::empty()
    } else {
        let (first, last) = span_on(text, line, start, end);
        (if last > first {
            seq![(line, first, last)]
        } else {
            Seq::empty()
        }) + spans_from(text, line + 1, start, end)
    }
}

/// The parts of the lines that the selection covers.
pub open spec fn selection_spans(s: DocState) -> Seq<(nat, nat, nat)> {
    match s.selection() {
        Some((from, to)) => spans_from(
            s.text,
            s.position_of(from).0,
            s.position_of(from),
            s.position_of(to),
        ),
        None => Seq::empty(),
    }
}

/// The spans in `spans`, as numbers.
pub open spec fn spans_of(spans: Seq<(usize, usize, usize)>) -> Seq<(nat, nat, nat)> {
    spans.map_values(|span: (usize, usize, usize)| (span.0 as nat, span.1 as nat, span.2 as nat))
}

/// `Path::file_name`, then `OsStr::to_str`: the last component of a path as
/// text, where it has one that is valid Unicode. Nothing is claimed of the
/// result: how a path divides is the platform's affair.
#[verifier::external_body]
fn file_name_of(path: &PathBuf) -> Option<&str> {
    match path.file_name() {
        Some(name) => name.to_str(),
        None => None,
    }
}

/// The name of a tab for a document with the file name `name`.
pub fn label_for(name: Option<&str>, dirty: bool) -> (label: String)
    ensures
        label@ == tab_label(opt_view(name), dirty),
{
    let mut label = String::from_str(
        match name {
            Some(n) => n,
            None => "Untitled",
        },
    );
    if dirty {
        label.append("*");
    }
    proof {
        assert(label@ =~= tab_label(opt_view(name), dirty));
    }
    label
}

/// The name of a document's tab: the name of its file, or `Untitled`, and a
/// star where the document is dirty.
pub fn doc_label(doc: &Document) -> (label: String)
    ensures
        is_label_of(label@, doc.core@),
{
    let name = match doc.core.path() {
        Some(path) => file_name_of(path),
        None => None,
    };
    match name {
        Some(n) => {
            let label = label_for(Some(n), doc.core.is_dirty());
            proof {
                assert(label@ == tab_label(Some(n@), doc.core@.dirty));
            }
            label
        },
        None => {
            let label = label_for(None, doc.core.is_dirty());
            proof {
                assert(label@ == tab_label(None::<Seq<char>>, doc.core@.dirty));
            }
            label
        },
    }
}

/// The title of the window for a document: its tab's label, the encoding,
/// and line and column of the cursor, both counted from 1.
pub open spec fn title_text(
    name: Option<Seq<char>>,
    dirty: bool,
    encoding: TextEncoding,
    position: (nat, nat),
) -> Seq<char> {
    tab_label(name, dirty) + "  "@ + label_of(encoding) + " (Ln "@ + decimal(position.0 + 1)
        + ", Col "@ + decimal(position.1 + 1) + ")"@
}

/// The title of the window for a document with the file name `name`.
pub fn title_for(name: Option<&str>, dirty: bool, encoding: TextEncoding, position: Cursor) -> (title:
    String)
    ensures
        title@ == title_text(
            opt_view(name),
            dirty,
            encoding,
            (position.line as nat, position.col as nat),
        ),
{
    let mut title = label_for(name, dirty);
    title.append("  ");
    title.append(encoding.label());
    title.append(" (Ln ");
    push_decimal_wide(&mut title, position.line as u128 + 1);
    title.append(", Col ");
    push_decimal_wide(&mut title, position.col as u128 + 1);
    title.push(')');
    proof {
        reveal_strlit(")");
        assert(title@ =~= title_text(
            opt_view(name),
            dirty,
            encoding,
            (position.line as nat, position.col as nat),
        ));
    }
    title
}

/// The title of the window for a document: the name of its file, or
/// `Untitled`, a star where it is dirty, its encoding, and where the cursor
/// stands.
pub fn build_title(core: &Core) -> (title: String)
    ensures
        exists|name: Option<Seq<char>>|
            (core@.path.is_none() ==> name.is_none()) && title@ == title_text(
                name,
                core@.dirty,
                core@.encoding,
                core@.position_of(core@.cursor),
            ),
{
    let name = match core.path() {
        Some(path) => file_name_of(path),
        None => None,
    };
    match name {
        Some(n) => {
            let title = title_for(Some(n), core.is_dirty(), core.encoding(), core.cursor());
            proof {
                assert(title@ == title_text(
                    Some(n@),
                    core@.dirty,
                    core@.encoding,
                    core@.position_of(core@.cursor),
                ));
            }
            title
        },
        None => {
            let title = title_for(None, core.is_dirty(), core.encoding(), core.cursor());
            proof {
                assert(title@ == title_text(
                    None::<Seq<char>>,
                    core@.dirty,
                    core@.encoding,
                    core@.position_of(core@.cursor),
                ));
            }
            title
        },
    }
}

/// The labels in `labels`, as texts.
pub open spec fn label_texts(labels: Seq<String>) -> Seq<Seq<char>> {
    labels.map_values(|label: String| label@)
}

/// The tab bar for tabs with the given labels: each tab's number and label,
/// the active one in square brackets, two spaces between them.
pub fn tab_bar_text(labels: &Vec<String>, active_doc_index: usize) -> (bar: String)
    ensures
        bar@ == tab_bar(label_texts(labels@), active_doc_index as nat, labels@.len()),
{
    let mut bar = String::new();
    let mut index: usize = 0;
    while index < labels.len()
        invariant
            index <= labels.len(),
            bar@ == tab_bar(label_texts(labels@), active_doc_index as nat, index as nat),
        decreases labels.len() - index,
    {
        let ghost before = bar@;
        if index > 0 {
            bar.append("  ");
        }
        if index == active_doc_index {
            bar.push('[');
            push_decimal(&mut bar, index + 1);
            bar.push(':');
            bar.append(labels[index].as_str());
            bar.push(']');
        } else {
            push_decimal(&mut bar, index + 1);
            bar.push(':');
            bar.append(labels[index].as_str());
        }
        proof {
            reveal_strlit("[");
            reveal_strlit("]");
            reveal_strlit(":");
            let entry = tab_entry(
                index as nat,
                label_texts(labels@)[index as int],
                index == active_doc_index,
            );
            if index > 0 {
                assert(bar@ =~= before + "  "@ + entry);
            } else {
                assert(bar@ =~= entry);
            }
        }
        index = index + 1;
    }
    bar
}

/// The tab bar for `documents`, of which the one with index
/// `active_doc_index` is active.
pub fn build_tab_bar(documents: &[Document], active_doc_index: usize) -> (bar: String)
    ensures
        exists|labels: Seq<Seq<char>>|
            {
                &&& labels.len() == documents@.len()
                &&& forall|i: int|
                    0 <= i < labels.len() ==> is_label_of(#[trigger] labels[i], documents@[i].core@)
                &&& bar@ == tab_bar(labels, active_doc_index as nat, labels.len())
            },
{
    let mut labels: Vec<String> = Vec::new();
    let mut index: usize = 0;
    while index < documents.len()
        invariant
            index <= documents.len(),
            labels@.len() == index,
            forall|i: int|
                0 <= i < index ==> is_label_of(
                    #[trigger] label_texts(labels@)[i],
                    documents@[i].core@,
                ),
        decreases documents.len() - index,
    {
        let label = doc_label(&documents[index]);
        let ghost before = label_texts(labels@);
        labels.push(label);
        proof {
            assert(label_texts(labels@) =~= before.push(label@));
        }
        index = index + 1;
    }
    let bar = tab_bar_text(&labels, active_doc_index);
    proof {
        let texts = label_texts(labels@);
        assert(texts.len() == documents@.len());
        assert(bar@ == tab_bar(texts, active_doc_index as nat, texts.len()));
    }
    bar
}

impl Document {
    /// A tab with a new, empty document and nothing under way.
    pub fn new(id: u64) -> (doc: Document)
        ensures
            doc.id == id,
            doc.core@ == DocState::empty(),
            doc.active_open_request.is_none(),
            doc.active_save_request.is_none(),
            doc.active_search_request.is_none(),
            doc.search_state.query@.len() == 0,
            doc.search_state.matches@.len() == 0,
            !doc.search_state.pending,
    {
        Document {
            id,
            core: Core::new(),
            active_open_request: None,
            active_save_request: None,
            active_search_request: None,
            search_state: SearchState::new(),
        }
    }

    /// Takes the answer to a request to open a file, if it bears the number
    /// of the newest such request: the file's content becomes the document
    /// and `path` its path. An answer with another number is dropped, and
    /// one that reports a failure leaves the document as it was.
    pub fn finish_open(
        &mut self,
        request_id: u64,
        path: PathBuf,
        result: Result<Vec<u8>, CoreError>,
    ) -> (outcome: OpenOutcome)
        requires
            old(self).core@.wf(),
            result matches Ok(bytes) ==> bytes@.len() < codec_limit(),
        ensures
            final(self).id == old(self).id,
            final(self).active_save_request == old(self).active_save_request,
            final(self).active_search_request == old(self).active_search_request,
            final(self).search_state == old(self).search_state,
            final(self).core@.wf(),
            old(self).active_open_request != Some(request_id) ==> outcome is Stale && *final(self)
                == *old(self),
            old(self).active_open_request == Some(request_id) ==> final(self).active_open_request.is_none() && match result {
                Ok(bytes) => {
                    &&& outcome == OpenOutcome::Loaded(detected_encoding(bytes@))
                    &&& final(self).core@ == (DocState {
                        path: Some(path),
                        ..old(self).core@.loaded(loaded_text(bytes@), detected_encoding(bytes@))
                    })
                },
                Err(error) => outcome == OpenOutcome::Failed(error) && final(self).core == old(self).core,
            },
    {
        let awaited = match self.active_open_request {
            Some(active) => active == request_id,
            None => false,
        };
        if !awaited {
            return OpenOutcome::Stale;
        }
        self.active_open_request = None;
        match result {
            Ok(bytes) => match self.core.load_from_bytes(bytes.as_slice()) {
                Ok(encoding) => {
                    self.core.set_path(Some(path));
                    OpenOutcome::Loaded(encoding)
                },
                Err(error) => OpenOutcome::Failed(error),
            },
            Err(error) => OpenOutcome::Failed(error),
        }
    }

    /// Takes the answer to a request to save the document, if it bears the
    /// number of the newest such request: the document is saved at `path`
    /// in `encoding`. An answer with another number is dropped, and one
    /// that reports a failure leaves the document as it was.
    pub fn finish_save(
        &mut self,
        request_id: u64,
        path: PathBuf,
        encoding: TextEncoding,
        result: Result<(), CoreError>,
    ) -> (outcome: SaveOutcome)
        requires
            old(self).core@.wf(),
        ensures
            final(self).id == old(self).id,
            final(self).active_open_request == old(self).active_open_request,
            final(self).active_search_request == old(self).active_search_request,
            final(self).search_state == old(self).search_state,
            final(self).core@.wf(),
            old(self).active_save_request != Some(request_id) ==> outcome is Stale && *final(self)
                == *old(self),
            old(self).active_save_request == Some(request_id) ==> final(self).active_save_request.is_none() && match result {
                Ok(_) => outcome is Saved && final(self).core@ == old(self).core@.mark_saved(
                    path,
                    encoding,
                ),
                Err(error) => outcome == SaveOutcome::Failed(error) && final(self).core == old(self).core,
            },
    {
        let awaited = match self.active_save_request {
            Some(active) => active == request_id,
            None => false,
        };
        if !awaited {
            return SaveOutcome::Stale;
        }
        self.active_save_request = None;
        match result {
            Ok(_) => {
                self.core.mark_saved(path, encoding);
                SaveOutcome::Saved
            },
            Err(error) => SaveOutcome::Failed(error),
        }
    }

    /// Takes the answer to a search, if it bears the number of the newest
    /// search: its matches are the matches of the document's search now. An
    /// answer with another number is dropped. Returns whether the answer
    /// was taken.
    pub fn finish_search(&mut self, request_id: u64, query: String, matches: Vec<usize>) -> (taken:
        bool)
        ensures
            taken == (old(self).active_search_request == Some(request_id)),
            !taken ==> *final(self) == *old(self),
            taken ==> *final(self) == (Document {
                active_search_request: None,
                search_state: SearchState { query, matches, pending: false },
                ..*old(self)
            }),
    {
        let awaited = match self.active_search_request {
            Some(active) => active == request_id,
            None => false,
        };
        if !awaited {
            return false;
        }
        self.active_search_request = None;
        self.search_state.query = query;
        self.search_state.matches = matches;
        self.search_state.pending = false;
        true
    }

    /// Notes that a file is being opened for this tab, under the next free
    /// request number, which is returned.
    pub fn begin_open(&mut self, next_request_id: &mut u64) -> (request_id: u64)
        requires
            *old(next_request_id) < u64::MAX,
        ensures
            request_id == *old(next_request_id),
            *final(next_request_id) == request_id + 1,
            *final(self) == (Document { active_open_request: Some(request_id), ..*old(self) }),
    {
        let request_id = *next_request_id;
        *next_request_id = request_id + 1;
        self.active_open_request = Some(request_id);
        request_id
    }

    /// Notes that this tab's document is being saved, under the next free
    /// request number, which is returned.
    pub fn begin_save(&mut self, next_request_id: &mut u64) -> (request_id: u64)
        requires
            *old(next_request_id) < u64::MAX,
        ensures
            request_id == *old(next_request_id),
            *final(next_request_id) == request_id + 1,
            *final(self) == (Document { active_save_request: Some(request_id), ..*old(self) }),
    {
        let request_id = *next_request_id;
        *next_request_id = request_id + 1;
        self.active_save_request = Some(request_id);
        request_id
    }
}

/// Decides whether the document must be searched anew for
/// `effective_query`, and notes the search as under way if so. An empty
/// query ends the search. The same query as before is not searched again
/// unless `force` says so or the search for it is still under way. The
/// search to carry out is returned.
pub fn request_search_update(
    doc: &mut Document,
    next_request_id: &mut u64,
    effective_query: String,
    force: bool,
) -> (request: Option<SearchRequest>)
    requires
        *old(next_request_id) < u64::MAX,
    ensures
        final(doc).id == old(doc).id,
        final(doc).core == old(doc).core,
        final(doc).active_open_request == old(doc).active_open_request,
        final(doc).active_save_request == old(doc).active_save_request,
        effective_query@.len() == 0 ==> {
            &&& request.is_none()
            &&& *final(next_request_id) == *old(next_request_id)
            &&& final(doc).active_search_request.is_none()
            &&& final(doc).search_state.query@.len() == 0
            &&& final(doc).search_state.matches@.len() == 0
            &&& !final(doc).search_state.pending
        },
        effective_query@.len() > 0 && !force && old(doc).search_state.query@ == effective_query@
            && !old(doc).search_state.pending ==> request.is_none() && *final(doc) == *old(doc)
            && *final(next_request_id) == *old(next_request_id),
        effective_query@.len() > 0 && (force || old(doc).search_state.query@ != effective_query@
            || old(doc).search_state.pending) ==> {
            &&& request matches Some(search)
            &&& search.request_id == *old(next_request_id)
            &&& search.query@ == effective_query@
            &&& search.text@ == old(doc).core@.text
            &&& *final(next_request_id) == *old(next_request_id) + 1
            &&& final(doc).active_search_request == Some(*old(next_request_id))
            &&& final(doc).search_state.query@ == effective_query@
            &&& final(doc).search_state.matches@.len() == 0
            &&& final(doc).search_state.pending
        },
{
    if effective_query.as_str().is_empty() {
        doc.search_state.query = String::new();
        doc.search_state.matches.clear();
        doc.search_state.pending = false;
        doc.active_search_request = None;
        return None;
    }
    if !force && doc.search_state.query == effective_query && !doc.search_state.pending {
        return None;
    }
    let request_id = *next_request_id;
    *next_request_id = request_id + 1;
    doc.active_search_request = Some(request_id);
    doc.search_state.query = effective_query.clone();
    doc.search_state.matches.clear();
    doc.search_state.pending = true;
    let text = doc.core.text();
    Some(SearchRequest { request_id, query: effective_query, text })
}

/// Moves the cursor of `core` one step in `direction`. Returns whether its
/// position or the selection changed.
pub fn move_cursor(core: &mut Core, direction: Direction, extend: bool) -> (changed: bool)
    requires
        old(core)@.wf(),
    ensures
        final(core)@ == match direction {
            Direction::Left => old(core)@.move_left(extend),
            Direction::Right => old(core)@.move_right(extend),
            Direction::Up => old(core)@.move_up(extend),
            Direction::Down => old(core)@.move_down(extend),
        },
        final(core)@.wf(),
        changed == (final(core)@.position_of(final(core)@.cursor) != old(core)@.position_of(
            old(core)@.cursor,
        ) || final(core)@.selection() != old(core)@.selection()),
{
    let before_cursor = core.cursor();
    let before_selection = core.selection_range();
    match direction {
        Direction::Left => core.move_left(extend),
        Direction::Right => core.move_right(extend),
        Direction::Up => core.move_up(extend),
        Direction::Down => core.move_down(extend),
    }
    let after_cursor = core.cursor();
    let after_selection = core.selection_range();
    let same_selection = match (after_selection, before_selection) {
        (None, None) => true,
        (Some((a0, a1)), Some((b0, b1))) => a0 == b0 && a1 == b1,
        _ => false,
    };
    after_cursor != before_cursor || !same_selection
}

/// The line below the search bar: how many matches there are and which of
/// them the cursor is at, or that the search is still under way.
pub fn build_search_nav_text(
    core: &Core,
    search_state: &SearchState,
    query: &str,
    preedit: Option<&str>,
) -> (text: String)
    ensures
        text@ == search_nav_text(
            core@.cursor,
            search_state.query@,
            search_state.matches@,
            search_state.pending,
            query@,
            opt_view(preedit),
        ),
{
    let effective_query = build_search_effective_query(query, preedit);
    let nav_hint = " (Enter: next, Shift+Enter: prev)";
    if effective_query.as_str().is_empty() {
        let mut text = String::from_str("Matches: 0/0");
        text.append(nav_hint);
        return text;
    }
    if search_state.pending || !(search_state.query == effective_query) {
        let mut text = String::from_str("Matches: --/--  Searching...");
        text.append(nav_hint);
        return text;
    }
    let total = search_state.matches.len();
    let current = current_match_index(
        search_state.matches.as_slice(),
        core.cursor_char(),
        effective_query.as_str().unicode_len(),
    );
    let mut text = String::from_str("Matches: ");
    push_decimal(&mut text, current);
    text.push('/');
    push_decimal(&mut text, total);
    text.append(nav_hint);
    proof {
        reveal_strlit("/");
        assert(text@ =~= "Matches: "@ + decimal(current as nat) + "/"@ + decimal(total as nat)
            + nav_hint@);
    }
    text
}

/// The parts of the lines that the selection covers, each as line, first
/// column and end column, from the first line to the last. Lines of which
/// the selection covers nothing are left out.
pub fn build_selection_spans(core: &Core) -> (spans: Vec<(usize, usize, usize)>)
    ensures
        spans_of(spans@) == selection_spans(core@),
{
    let mut spans: Vec<(usize, usize, usize)> = Vec::new();
    let (start, end) = match core.selection_range() {
        Some(range) => range,
        None => {
            proof {
                assert(spans_of(spans@) =~= Seq::<(nat, nat, nat)>::empty());
            }
            return spans;
        },
    };
    let start_cursor = core.cursor_for_char(start);
    let end_cursor = core.cursor_for_char(end);
    let lines = core.line_count();
    let ghost from = core@.position_of(start as nat);
    let ghost to = core@.position_of(end as nat);
    let mut line = start_cursor.line;
    proof {
        assert(spans_of(spans@) =~= Seq::<(nat, nat, nat)>::empty());
    }
    while line <= end_cursor.line
        invariant
            from == (start_cursor.line as nat, start_cursor.col as nat),
            to == (end_cursor.line as nat, end_cursor.col as nat),
            end_cursor.line < lines == line_count(core@.text),
            spans_of(spans@) + spans_from(core@.text, line as nat, from, to) == spans_from(
                core@.text,
                start_cursor.line as nat,
                from,
                to,
            ),
        decreases end_cursor.line + 1 - line,
    {
        let line_len = core.line_len_chars(line);
        let start_col = if line == start_cursor.line {
            start_cursor.col
        } else {
            0
        };
        let end_col = if line == end_cursor.line {
            end_cursor.col
        } else {
            line_len
        };
        let ghost before = spans_of(spans@);
        let ghost rest = spans_from(core@.text, (line + 1) as nat, from, to);
        if end_col > start_col {
            spans.push((line, start_col, end_col));
            proof {
                assert(spans_of(spans@) =~= before.push(
                    (line as nat, start_col as nat, end_col as nat),
                ));
                assert(spans_of(spans@) + rest =~= before + (seq![
                    (line as nat, start_col as nat, end_col as nat),
                ] + rest));
            }
        } else {
            proof {
                assert(before + (Seq::<(nat, nat, nat)>::empty() + rest) =~= before + rest);
            }
        }
        line = line + 1;
    }
    proof {
        assert(spans_of(spans@) + Seq::<(nat, nat, nat)>::empty() =~= spans_of(spans@));
    }
    spans
}

/// Makes the tab with index `next_index` the active one, or the last tab
/// where there is no such tab. The tab that was active drops what is under
/// way for it: its requests are forgotten, so that their answers come late,
/// and its composition ends.
pub fn switch_to_tab(
    documents: &mut Vec<Document>,
    active_doc_index: &mut usize,
    next_index: usize,
)
    requires
        old(documents)@.len() > 0 ==> *old(active_doc_index) < old(documents)@.len(),
    ensures
        final(documents)@.len() == old(documents)@.len(),
        forall|i: int|
            0 <= i < old(documents)@.len() && i != *old(active_doc_index) ==> final(documents)@[i]
                == old(documents)@[i],
        *old(active_doc_index) == next_index || old(documents)@.len() == 0 ==> *final(documents)
            == *old(documents) && *final(active_doc_index) == *old(active_doc_index),
        *old(active_doc_index) != next_index && old(documents)@.len() > 0 ==> {
            let before = old(documents)@[*old(active_doc_index) as int];
            let after = final(documents)@[*old(active_doc_index) as int];
            &&& *final(active_doc_index) == if next_index < old(documents)@.len() {
                next_index
            } else {
                (old(documents)@.len() - 1) as usize
            }
            &&& after.id == before.id
            &&& after.active_open_request.is_none()
            &&& after.active_save_request.is_none()
            &&& after.active_search_request.is_none()
            &&& after.search_state == (SearchState { pending: false, ..before.search_state })
            &&& after.core@ == before.core@.clear_preedit()
        },
{
    if *active_doc_index == next_index || documents.len() == 0 {
        return ;
    }
    let mut prev = documents.remove(*active_doc_index);
    prev.active_open_request = None;
    prev.active_save_request = None;
    prev.active_search_request = None;
    prev.search_state.pending = false;
    prev.core.clear_preedit();
    documents.insert(*active_doc_index, prev);
    let last = documents.len() - 1;
    *active_doc_index = if next_index < last {
        next_index
    } else {
        last
    };
}

/// Closes the active tab. The last tab is not closed but emptied; of
/// several tabs the active one goes, and the tab behind it, or else the
/// last tab, becomes the active one.
pub fn close_current_tab(documents: &mut Vec<Document>, active_doc_index: &mut usize)
    requires
        old(documents)@.len() > 1 ==> *old(active_doc_index) < old(documents)@.len(),
    ensures
        old(documents)@.len() == 0 ==> *final(documents) == *old(documents) && *final(active_doc_index) == *old(active_doc_index),
        old(documents)@.len() == 1 ==> {
            let only = final(documents)@[0];
            &&& final(documents)@.len() == 1
            &&& *final(active_doc_index) == *old(active_doc_index)
            &&& only.id == old(documents)@[0].id
            &&& only.core@ == DocState::empty()
            &&& only.active_open_request.is_none()
            &&& only.active_save_request.is_none()
            &&& only.active_search_request.is_none()
            &&& only.search_state.query@.len() == 0
            &&& only.search_state.matches@.len() == 0
            &&& !only.search_state.pending
        },
        old(documents)@.len() > 1 ==> {
            &&& final(documents)@ == old(documents)@.remove(*old(active_doc_index) as int)
            &&& *final(active_doc_index) == if *old(active_doc_index) < old(documents)@.len() - 1 {
                *old(active_doc_index)
            } else {
                (old(documents)@.len() - 2) as usize
            }
        },
{
    if documents.len() == 0 {
        return ;
    }
    if documents.len() == 1 {
        let only = documents.remove(0);
        documents.push(Document::new(only.id));
        return ;
    }
    documents.remove(*active_doc_index);
    if *active_doc_index >= documents.len() {
        *active_doc_index = documents.len() - 1;
    }
}

/// The match that a step of the search arrives at from the cursor: forward
/// from behind the cursor, or backward from in front of it, going round at
/// the ends of the buffer.
pub open spec fn search_step(s: DocState, query: Seq<char>, backward: bool) -> Option<int> {
    if backward {
        prev_match(
            s.text,
            query,
            if s.cursor > 0 {
                (s.cursor - 1) as nat
            } else {
                0
            },
        )
    } else {
        next_match(s.text, query, s.cursor + 1)
    }
}

/// Puts the cursor on the next match of `query`, or on the one before with
/// `backward`, and drops the selection. Without a match nothing changes.
/// Returns whether cursor or selection changed.
pub fn jump_to_match(core: &mut Core, query: &str, backward: bool) -> (changed: bool)
    requires
        old(core)@.wf(),
    ensures
        final(core)@ == match search_step(old(core)@, query@, backward) {
            Some(at) => old(core)@.set_cursor(at as nat, false),
            None => old(core)@,
        },
        changed == (final(core)@.cursor != old(core)@.cursor || final(core)@.selection() != old(core)@.selection()),
        final(core)@.wf(),
{
    let cursor = core.cursor_char();
    let found = if backward {
        let start = if cursor > 0 {
            cursor - 1
        } else {
            0
        };
        core.find_prev(query, start)
    } else {
        let start = if cursor < usize::MAX {
            cursor + 1
        } else {
            cursor
        };
        core.find_next(query, start)
    };
    match found {
        Some(at) => {
            proof {
                law_position_clamps(core@, at as nat);
            }
            let position = core.cursor_for_char(at);
            core.set_cursor_line_col(position.line, position.col, false)
        },
        None => false,
    }
}

/// Whether `ch` begins with one of the digits 1 to 9, which pick a tab.
pub fn is_tab_index_key(ch: &str) -> (picks: bool)
    ensures
        picks == (ch@.len() > 0 && '1' <= ch@[0] <= '9'),
{
    if ch.unicode_len() == 0 {
        return false;
    }
    let digit = ch.get_char(0);
    '1' <= digit && digit <= '9'
}

/// The index of the tab that the key `ch` picks: one less than the digit it
/// begins with, where that is one of 1 to 9.
pub fn tab_index_from_key(ch: &str) -> (index: Option<usize>)
    ensures
        match index {
            Some(i) => ch@.len() > 0 && '1' <= ch@[0] <= '9' && i == ch@[0] as u32 - '1' as u32,
            None => !(ch@.len() > 0 && '1' <= ch@[0] <= '9'),
        },
{
    if ch.unicode_len() == 0 {
        return None;
    }
    let digit = ch.get_char(0);
    if '1' <= digit && digit <= '9' {
        Some((digit as u32 - '1' as u32) as usize)
    } else {
        None
    }
}

} // verus!
