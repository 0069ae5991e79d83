//! The rope that holds a document's text.
//!
//! The rope is `ropey::Rope`. Verus does not look inside it: what it holds is
//! named by [`rope_text`], and each method that the engine calls is reached
//! through a wrapper whose contract restates the method's documentation over
//! that name. These contracts are believed, not proved.
//!
//! The crate is built without ropey's `cr_lines` and `unicode_lines` features,
//! so the line feed is the only character that ends a line.

use crate::lines::{line_count, line_of, line_start};
use ropey::Rope;
use vstd::prelude::*;

verus! {

/// `ropey::Rope`, made known to Verus as a type whose inside it does not see.
#[verifier::external_type_specification]
#[verifier::external_body]
pub struct ExRope(ropey::Rope);

/// The characters that a rope holds, in order.
pub uninterp spec fn rope_text(rope: &Rope) -> Seq<char>;

/// `Rope::from_str`: a rope that holds the characters of `text`.
#[verifier::external_body]
pub(crate) fn rope_from_str(text: &str) -> (rope: Rope)
    ensures
        rope_text(&rope) == text@,
{
    Rope::from_str(text)
}

/// `Rope::len_chars`: the number of characters in the rope.
#[verifier::external_body]
pub(crate) fn rope_len_chars(rope: &Rope) -> (n: usize)
    ensures
        n == rope_text(rope).len(),
{
    rope.len_chars()
}

/// `Rope::len_lines`: the number of line breaks in the rope, plus one.
#[verifier::external_body]
pub(crate) fn rope_len_lines(rope: &Rope) -> (n: usize)
    ensures
        n == line_count(rope_text(rope)),
{
    rope.len_lines()
}

/// `Rope::char_to_line`: the index of the line that holds the character at
/// `char_idx`, which is the number of line breaks in front of it. The index
/// may be the rope's length; beyond that the method panics.
#[verifier::external_body]
pub(crate) fn rope_char_to_line(rope: &Rope, char_idx: usize) -> (line: usize)
    requires
        char_idx <= rope_text(rope).len(),
    ensures
        line == line_of(rope_text(rope), char_idx as int),
{
    rope.char_to_line(char_idx)
}

/// `Rope::line_to_char`: the index of the first character of line `line_idx`.
/// The line may be one past the last, which gives the rope's length; beyond
/// that the method panics.
#[verifier::external_body]
pub(crate) fn rope_line_to_char(rope: &Rope, line_idx: usize) -> (start: usize)
    requires
        line_idx <= line_count(rope_text(rope)),
    ensures
        start == line_start(rope_text(rope), line_idx as nat),
{
    rope.line_to_char(line_idx)
}

/// `Rope::insert`: puts the characters of `text` in front of the character at
/// `char_idx`. The method panics where `char_idx` is beyond the rope's length;
/// the result must be a text whose length the machine can count.
#[verifier::external_body]
pub(crate) fn rope_insert(rope: &mut Rope, char_idx: usize, text: &str)
    requires
        char_idx <= rope_text(old(rope)).len(),
        rope_text(old(rope)).len() + text@.len() <= usize::MAX,
    ensures
        rope_text(final(rope)) == rope_text(old(rope)).take(char_idx as int) + text@ + rope_text(
            old(rope),
        ).skip(char_idx as int),
{
    rope.insert(char_idx, text)
}

/// `Rope::remove`: takes out the characters from `start` up to `end`. The
/// method panics where `start` is beyond `end`, or `end` beyond the rope's
/// length.
#[verifier::external_body]
pub(crate) fn rope_remove(rope: &mut Rope, start: usize, end: usize)
    requires
        start <= end <= rope_text(old(rope)).len(),
    ensures
        rope_text(final(rope)) == rope_text(old(rope)).take(start as int) + rope_text(
            old(rope),
        ).skip(end as int),
{
    rope.remove(start..end)
}

/// `Rope::slice`, then `to_string` on the slice: the characters from `start`
/// up to `end` as a string. `slice` panics where `start` is beyond `end`, or
/// `end` beyond the rope's length.
#[verifier::external_body]
pub(crate) fn rope_slice_to_string(rope: &Rope, start: usize, end: usize) -> (text: String)
    requires
        start <= end <= rope_text(rope).len(),
    ensures
        text@ == rope_text(rope).subrange(start as int, end as int),
{
    rope.slice(start..end).to_string()
}

/// `to_string` on the rope: all its characters as a string.
#[verifier::external_body]
pub(crate) fn rope_to_string(rope: &Rope) -> (text: String)
    ensures
        text@ == rope_text(rope),
{
    rope.to_string()
}

} // verus!
