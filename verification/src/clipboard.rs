//! The history of copied texts, and the panel that offers them for pasting.
//!
//! The panel shows a window of up to three entries, the newest first. One
//! entry is selected, and the window follows the selection.

use crate::format::{decimal, push_decimal};
use crate::utf8::chars_of;
use std::ops::Range;
use vstd::prelude::*;
use vstd::string::StringExecFns;

verus! {

/// The most entries that the panel shows at once.
pub const WINDOW_SIZE: usize = 3;

/// The most characters of an entry that the panel shows.
pub const ITEM_LIMIT: usize = 40;

/// The texts that were copied, the newest first, and the state of the panel
/// that shows them.
#[derive(Debug)]
pub struct ClipboardHistory {
    pub items: Vec<String>,
    pub max: usize,
    pub selected_index: usize,
    pub visible: bool,
    pub window_start: usize,
}

/// The number of entries in a window over `len` entries.
pub open spec fn window_len(len: nat) -> nat {
    if len < WINDOW_SIZE {
        len
    } else {
        WINDOW_SIZE as nat
    }
}

/// Where a window over `len` entries that started at `start` starts once the
/// selection has moved to `selected`: it moves just far enough to hold the
/// selection, and not beyond the last entries.
pub open spec fn window_following(start: nat, selected: nat, len: nat) -> nat {
    let size = if window_len(len) == 0 {
        1
    } else {
        window_len(len)
    };
    let moved = if selected < start {
        selected
    } else if selected >= start + size {
        (selected - (size - 1)) as nat
    } else {
        start
    };
    let last = if len >= size {
        (len - size) as nat
    } else {
        0
    };
    if moved > last {
        last
    } else {
        moved
    }
}

/// A text as the panel shows it: every line feed written as a backslash and
/// an `n`.
pub open spec fn escaped(text: Seq<char>) -> Seq<char>
    decreases text.len(),
{
    if text.len() == 0 {
        Seq::empty()
    } else if text.last() == '\n' {
        escaped(text.drop_last()) + seq!['\\', 'n']
    } else {
        escaped(text.drop_last()).push(text.last())
    }
}

/// The first `limit` characters of `text`, or all of it where it is shorter.
pub open spec fn clipped(text: Seq<char>, limit: nat) -> Seq<char> {
    if text.len() <= limit {
        text
    } else {
        text.take(limit as int)
    }
}

impl ClipboardHistory {
    /// The copied texts, the newest first.
    pub open spec fn texts(&self) -> Seq<Seq<char>> {
        self.items@.map_values(|item: String| item@)
    }

    /// What every history that these methods made satisfies: it holds no more
    /// than `max` entries, the selection is one of them, and the window holds
    /// the selection and ends within the entries.
    pub open spec fn wf(&self) -> bool {
        &&& self.items@.len() <= self.max
        &&& self.items@.len() == 0 ==> self.selected_index == 0 && self.window_start == 0
        &&& self.items@.len() > 0 ==> {
            &&& self.selected_index < self.items@.len()
            &&& self.window_start <= self.selected_index < self.window_start + WINDOW_SIZE
            &&& self.window_start + window_len(self.items@.len()) <= self.items@.len()
        }
    }

    /// The window over the entries: where it starts and where it ends.
    pub open spec fn window(&self) -> (nat, nat) {
        let len = self.items@.len();
        let start = if self.window_start <= len {
            self.window_start as nat
        } else {
            len
        };
        let end = if start + window_len(len) <= len {
            start + window_len(len)
        } else {
            len
        };
        (start, end)
    }

    /// The line of the panel for the entry with index `index`, in a window
    /// that starts at `start`: a line feed, a mark for the selected entry,
    /// the entry's place in the window, and its text, escaped and clipped.
    pub open spec fn panel_line(&self, start: nat, index: nat) -> Seq<char> {
        "\n"@ + (if index == self.selected_index {
            "> "@
        } else {
            "  "@
        }) + "["@ + decimal((index - start + 1) as nat) + "] "@ + clipped(
            escaped(self.texts()[index as int]),
            ITEM_LIMIT as nat,
        )
    }

    /// The lines of the panel for the entries from `start` up to `end`.
    pub open spec fn panel_lines(&self, start: nat, end: nat) -> Seq<char>
        decreases end,
    {
        if end <= start {
            Seq::empty()
        } else {
            self.panel_lines(start, (end - 1) as nat) + self.panel_line(start, (end - 1) as nat)
        }
    }

    /// The text of the panel, where it is shown and has entries.
    pub open spec fn panel_text(&self) -> Option<Seq<char>> {
        if !self.visible || self.items@.len() == 0 {
            None
        } else {
            Some("Clipboard:"@ + self.panel_lines(self.window().0, self.window().1))
        }
    }

    /// An empty history that keeps up to `max` entries. Its panel is hidden.
    pub fn new(max: usize) -> (history: ClipboardHistory)
        ensures
            history.items@.len() == 0,
            history.max == max,
            history.selected_index == 0,
            !history.visible,
            history.window_start == 0,
            history.wf(),
    {
        ClipboardHistory {
            items: Vec::new(),
            max,
            selected_index: 0,
            visible: false,
            window_start: 0,
        }
    }

    /// Whether the panel is shown.
    pub fn is_visible(&self) -> (visible: bool)
        ensures
            visible == self.visible,
    {
        self.visible
    }

    /// The number of entries that the panel shows.
    pub fn visible_count(&self) -> (count: usize)
        ensures
            count == window_len(self.items@.len()),
    {
        if self.items.len() < WINDOW_SIZE {
            self.items.len()
        } else {
            WINDOW_SIZE
        }
    }

    /// Puts `text` in front as the newest entry, unless it is empty or the
    /// newest entry already. Entries beyond `max` are dropped from the end;
    /// selection and window go back to the front. Returns whether the
    /// history changed.
    pub fn push(&mut self, text: &str) -> (pushed: bool)
        ensures
            pushed == (text@.len() > 0 && !(old(self).items@.len() > 0 && old(self).texts()[0]
                == text@)),
            !pushed ==> *final(self) == *old(self),
            pushed ==> {
                &&& final(self).texts() == clipped_entries(
                    seq![text@] + old(self).texts(),
                    old(self).max as nat,
                )
                &&& final(self).max == old(self).max
                &&& final(self).visible == old(self).visible
                &&& final(self).selected_index == 0
                &&& final(self).window_start == 0
                &&& final(self).wf()
            },
    {
        if text.is_empty() {
            return false;
        }
        let entry = String::from_str(text);
        if self.items.len() > 0 && self.items[0] == entry {
            return false;
        }
        self.items.insert(0, entry);
        if self.items.len() > self.max {
            self.items.truncate(self.max);
        }
        self.selected_index = 0;
        self.window_start = 0;
        proof {
            assert(self.texts() =~= clipped_entries(
                seq![text@] + old(self).texts(),
                old(self).max as nat,
            ));
        }
        true
    }

    /// Shows the panel with the newest entry selected, if there are entries;
    /// hides it if there are none. Returns whether the panel is shown.
    pub fn show(&mut self) -> (shown: bool)
        ensures
            shown == (old(self).items@.len() > 0),
            final(self).visible == shown,
            final(self).items == old(self).items,
            final(self).max == old(self).max,
            shown ==> final(self).selected_index == 0 && final(self).window_start == 0,
            !shown ==> final(self).selected_index == old(self).selected_index && final(self).window_start == old(self).window_start,
            old(self).wf() ==> final(self).wf(),
    {
        if self.items.len() == 0 {
            self.visible = false;
            return false;
        }
        self.visible = true;
        self.selected_index = 0;
        self.window_start = 0;
        true
    }

    /// Hides the panel. Returns whether it was shown.
    pub fn dismiss(&mut self) -> (changed: bool)
        ensures
            changed == old(self).visible,
            *final(self) == (ClipboardHistory { visible: false, ..*old(self) }),
    {
        let changed = self.visible;
        self.visible = false;
        changed
    }

    /// Moves the selection one entry towards the newest; the window follows.
    pub fn move_up(&mut self)
        ensures
            final(self).selected_index == if old(self).selected_index == 0 {
                0
            } else {
                old(self).selected_index - 1
            },
            final(self).window_start == window_following(
                old(self).window_start as nat,
                final(self).selected_index as nat,
                old(self).items@.len(),
            ),
            final(self).items == old(self).items,
            final(self).max == old(self).max,
            final(self).visible == old(self).visible,
            old(self).wf() ==> final(self).wf(),
    {
        self.selected_index = if self.selected_index == 0 {
            0
        } else {
            self.selected_index - 1
        };
        self.adjust_window();
    }

    /// Moves the selection one entry towards the oldest, as far as there are
    /// entries; the window follows. Without entries nothing happens.
    pub fn move_down(&mut self)
        ensures
            old(self).items@.len() == 0 ==> *final(self) == *old(self),
            old(self).items@.len() > 0 ==> {
                &&& final(self).selected_index == if old(self).selected_index + 1 < old(self).items@.len() {
                    old(self).selected_index + 1
                } else {
                    old(self).items@.len() - 1
                }
                &&& final(self).window_start == window_following(
                    old(self).window_start as nat,
                    final(self).selected_index as nat,
                    old(self).items@.len(),
                )
            },
            final(self).items == old(self).items,
            final(self).max == old(self).max,
            final(self).visible == old(self).visible,
            old(self).wf() ==> final(self).wf(),
    {
        if self.items.len() == 0 {
            return ;
        }
        let last = self.items.len() - 1;
        self.selected_index = if self.selected_index < last {
            self.selected_index + 1
        } else {
            last
        };
        self.adjust_window();
    }

    /// Selects the entry at place `index` of the window, if the window has
    /// such a place. Returns whether it has.
    pub fn select_visible_index(&mut self, index: usize) -> (selected: bool)
        ensures
            selected == (index < window_len(old(self).items@.len()) && old(self).window_start
                + index < old(self).items@.len()),
            !selected ==> *final(self) == *old(self),
            selected ==> {
                &&& final(self).selected_index == old(self).window_start + index
                &&& final(self).window_start == window_following(
                    old(self).window_start as nat,
                    final(self).selected_index as nat,
                    old(self).items@.len(),
                )
            },
            final(self).items == old(self).items,
            final(self).max == old(self).max,
            final(self).visible == old(self).visible,
            old(self).wf() ==> final(self).wf(),
    {
        let len = self.items.len();
        if index < self.visible_count() && self.window_start < len && index < len
            - self.window_start {
            self.selected_index = self.window_start + index;
            self.adjust_window();
            true
        } else {
            false
        }
    }

    /// The selected entry, if there is one.
    pub fn selected_text(&self) -> (text: Option<&str>)
        ensures
            match text {
                Some(t) => self.selected_index < self.items@.len() && t@
                    == self.texts()[self.selected_index as int],
                None => self.selected_index >= self.items@.len(),
            },
    {
        if self.selected_index < self.items.len() {
            Some(self.items[self.selected_index].as_str())
        } else {
            None
        }
    }

    /// The indices of the entries that the panel shows.
    pub fn window_range(&self) -> (range: Range<usize>)
        ensures
            (range.start as nat, range.end as nat) == self.window(),
            range.start <= range.end <= self.items@.len(),
    {
        let len = self.items.len();
        let start = if self.window_start <= len {
            self.window_start
        } else {
            len
        };
        let count = self.visible_count();
        let end = if count <= len - start {
            start + count
        } else {
            len
        };
        start..end
    }

    /// Lets the window follow the selection, as [`window_following`] says.
    pub fn adjust_window(&mut self)
        ensures
            final(self).window_start == window_following(
                old(self).window_start as nat,
                old(self).selected_index as nat,
                old(self).items@.len(),
            ),
            *final(self) == (ClipboardHistory {
                window_start: final(self).window_start,
                ..*old(self)
            }),
    {
        let count = self.visible_count();
        let window_size = if count == 0 {
            1
        } else {
            count
        };
        if self.selected_index < self.window_start {
            self.window_start = self.selected_index;
        } else if self.selected_index - self.window_start >= window_size {
            self.window_start = self.selected_index - (window_size - 1);
        }
        let len = self.items.len();
        let max_start = if len >= window_size {
            len - window_size
        } else {
            0
        };
        if self.window_start > max_start {
            self.window_start = max_start;
        }
    }
}

/// The first `max` of `entries`, or all of them where they are fewer.
pub open spec fn clipped_entries(entries: Seq<Seq<char>>, max: nat) -> Seq<Seq<char>> {
    if entries.len() <= max {
        entries
    } else {
        entries.take(max as int)
    }
}

/// An entry as the panel shows it: every line feed written as a backslash
/// and an `n`, and of that the first `limit` characters.
pub fn format_clipboard_item(item: &str, limit: usize) -> (shown: String)
    ensures
        shown@ == clipped(escaped(item@), limit as nat),
{
    let chars = chars_of(item);
    let mut normalized: Vec<char> = Vec::new();
    let mut k: usize = 0;
    while k < chars.len()
        invariant
            k <= chars.len(),
            chars@ == item@,
            normalized@ == escaped(chars@.take(k as int)),
        decreases chars.len() - k,
    {
        proof {
            assert(chars@.take(k + 1).drop_last() =~= chars@.take(k as int));
        }
        if chars[k] == '\n' {
            normalized.push('\\');
            normalized.push('n');
        } else {
            normalized.push(chars[k]);
        }
        k = k + 1;
        proof {
            assert(normalized@ =~= escaped(chars@.take(k as int)));
        }
    }
    proof {
        assert(chars@.take(k as int) =~= chars@);
    }
    let mut shown = String::new();
    let mut n: usize = 0;
    while n < limit && n < normalized.len()
        invariant
            n <= limit,
            n <= normalized.len(),
            shown@ == normalized@.take(n as int),
        decreases normalized.len() - n,
    {
        shown.push(normalized[n]);
        n = n + 1;
        proof {
            assert(shown@ =~= normalized@.take(n as int));
        }
    }
    proof {
        assert(normalized@.take(normalized.len() as int) =~= normalized@);
    }
    shown
}

/// The text of the panel: a heading, then one line for each entry in the
/// window. Nothing where the panel is hidden or has no entries.
pub fn build_clipboard_nav_text(history: &ClipboardHistory) -> (text: Option<String>)
    ensures
        match text {
            Some(t) => history.panel_text() == Some(t@),
            None => history.panel_text().is_none(),
        },
{
    if !history.is_visible() || history.items.len() == 0 {
        return None;
    }
    let mut text = String::from_str("Clipboard:");
    let range = history.window_range();
    let mut index: usize = range.start;
    while index < range.end
        invariant
            range.start <= index <= range.end <= history.items@.len(),
            text@ == "Clipboard:"@ + history.panel_lines(range.start as nat, index as nat),
        decreases range.end - index,
    {
        let ghost before = text@;
        text.push('\n');
        text.append(
            if index == history.selected_index {
                "> "
            } else {
                "  "
            },
        );
        text.push('[');
        push_decimal(&mut text, index - range.start + 1);
        text.append("] ");
        let shown = format_clipboard_item(history.items[index].as_str(), ITEM_LIMIT);
        text.append(shown.as_str());
        proof {
            reveal_strlit("\n");
            reveal_strlit("[");
            assert(text@ =~= before + history.panel_line(range.start as nat, index as nat));
        }
        index = index + 1;
    }
    Some(text)
}

} // verus!
