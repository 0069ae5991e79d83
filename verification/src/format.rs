//! Building the short texts that the editor shows around a document.

use vstd::prelude::*;
use vstd::string::StringExecFns;

verus! {

/// `String::push`: appends one character.
pub assume_specification[ String::push ](text: &mut String, ch: char)
    ensures
        final(text)@ == old(text)@.push(ch),
;

/// The character for a decimal digit.
pub open spec fn digit_char(d: nat) -> char {
    if d == 0 {
        '0'
    } else if d == 1 {
        '1'
    } else if d == 2 {
        '2'
    } else if d == 3 {
        '3'
    } else if d == 4 {
        '4'
    } else if d == 5 {
        '5'
    } else if d == 6 {
        '6'
    } else if d == 7 {
        '7'
    } else if d == 8 {
        '8'
    } else {
        '9'
    }
}

/// A number in decimal digits, without leading zeros.
pub open spec fn decimal(n: nat) -> Seq<char>
    decreases n,
{
    if n < 10 {
        seq![digit_char(n)]
    } else {
        decimal(n / 10).push(digit_char(n % 10))
    }
}

/// `count` spaces.
pub open spec fn spaces(count: nat) -> Seq<char> {
    Seq::new(count, |i: int| ' ')
}

/// A number in decimal digits, with spaces in front of it up to `width`
/// characters.
pub open spec fn padded(n: nat, width: nat) -> Seq<char> {
    spaces(
        if width > decimal(n).len() {
            (width - decimal(n).len()) as nat
        } else {
            0
        },
    ) + decimal(n)
}

/// The numbers from 1 to `count`, each padded to `width` characters, one to
/// a line.
pub open spec fn numbered_lines(count: nat, width: nat) -> Seq<char>
    decreases count,
{
    if count == 0 {
        Seq::empty()
    } else if count == 1 {
        padded(1, width)
    } else {
        numbered_lines((count - 1) as nat, width) + seq!['\n'] + padded(count, width)
    }
}

/// The text of a line-number gutter for `line_count` lines, and the width of
/// its numbers: the numbers from 1 to the count, right-aligned to the width
/// of the last, one to a line. A count of 0 is taken as 1.
pub open spec fn line_numbers(line_count: nat) -> (Seq<char>, nat) {
    let count = if line_count == 0 {
        1
    } else {
        line_count
    };
    (numbered_lines(count, decimal(count).len()), decimal(count).len())
}

/// The text of the search bar for a query and an input-method composition
/// behind it.
pub open spec fn search_bar_text(query: Seq<char>, preedit: Option<Seq<char>>) -> Seq<char> {
    "Search:"@ + if query.len() > 0 || preedit.is_some() {
        " "@ + effective_query(query, preedit)
    } else {
        Seq::empty()
    }
}

/// The query that is searched for: what was typed, and what is being
/// composed behind it.
pub open spec fn effective_query(query: Seq<char>, preedit: Option<Seq<char>>) -> Seq<char> {
    match preedit {
        Some(composed) => query + composed,
        None => query,
    }
}

/// The views of an optional string.
pub open spec fn opt_view(text: Option<&str>) -> Option<Seq<char>> {
    match text {
        Some(t) => Some(t@),
        None => None,
    }
}

/// The first index from `from` on at which a match covers the cursor.
pub open spec fn first_covering(matches: Seq<usize>, cursor: nat, query_len: nat, from: nat) -> Option<
    nat,
>
    decreases matches.len() - from,
{
    if from >= matches.len() {
        None
    } else if matches[from as int] <= cursor < matches[from as int] + query_len {
        Some(from)
    } else {
        first_covering(matches, cursor, query_len, from + 1)
    }
}

/// The first index from `from` on at which a match begins behind the cursor.
pub open spec fn first_behind(matches: Seq<usize>, cursor: nat, from: nat) -> Option<nat>
    decreases matches.len() - from,
{
    if from >= matches.len() {
        None
    } else if matches[from as int] > cursor {
        Some(from)
    } else {
        first_behind(matches, cursor, from + 1)
    }
}

/// The number, counted from 1, of the match that the cursor is at: the first
/// one that covers the cursor, or else the first one behind it, or else the
/// first of all. Without matches, or with an empty query, it is 0.
pub open spec fn current_match(matches: Seq<usize>, cursor: nat, query_len: nat) -> nat {
    if matches.len() == 0 || query_len == 0 {
        0
    } else {
        match first_covering(matches, cursor, query_len, 0) {
            Some(index) => index + 1,
            None => match first_behind(matches, cursor, 0) {
                Some(index) => index + 1,
                None => 1,
            },
        }
    }
}

/// The digit for `d`.
fn digit_of(d: usize) -> (c: char)
    requires
        d < 10,
    ensures
        c == digit_char(d as nat),
{
    if d == 0 {
        '0'
    } else if d == 1 {
        '1'
    } else if d == 2 {
        '2'
    } else if d == 3 {
        '3'
    } else if d == 4 {
        '4'
    } else if d == 5 {
        '5'
    } else if d == 6 {
        '6'
    } else if d == 7 {
        '7'
    } else if d == 8 {
        '8'
    } else {
        '9'
    }
}

/// Appends `n` in decimal digits.
pub fn push_decimal_wide(out: &mut String, n: u128)
    ensures
        final(out)@ == old(out)@ + decimal(n as nat),
    decreases n,
{
    if n < 10 {
        out.push(digit_of(n as usize));
        proof {
            assert(final(out)@ =~= old(out)@ + decimal(n as nat));
        }
    } else {
        push_decimal_wide(out, n / 10);
        out.push(digit_of((n % 10) as usize));
        proof {
            assert(out@ =~= old(out)@ + decimal(n as nat));
        }
    }
}

/// Appends `n` in decimal digits.
pub fn push_decimal(out: &mut String, n: usize)
    ensures
        final(out)@ == old(out)@ + decimal(n as nat),
{
    push_decimal_wide(out, n as u128)
}

/// The number of decimal digits of `n`.
pub fn decimal_width(n: usize) -> (width: usize)
    ensures
        width == decimal(n as nat).len(),
        1 <= width <= 20,
{
    let mut width: usize = 1;
    let mut rest: usize = n;
    proof {
        lemma_decimal_len(n as nat);
    }
    while rest >= 10
        invariant
            1 <= width,
            decimal(n as nat).len() == decimal(rest as nat).len() + width - 1,
            width + decimal(rest as nat).len() <= 21,
        decreases rest,
    {
        proof {
            lemma_decimal_len(rest as nat);
            lemma_decimal_len((rest / 10) as nat);
        }
        rest = rest / 10;
        width = width + 1;
    }
    width
}

/// A number has as many digits as its size allows.
pub proof fn lemma_decimal_len(n: nat)
    ensures
        decimal(n).len() >= 1,
        n >= 10 ==> decimal(n).len() == decimal(n / 10).len() + 1,
        n <= usize::MAX ==> decimal(n).len() <= 20,
{
    reveal_with_fuel(decimal, 21);
}

/// Appends `n`, with spaces in front of it up to `width` characters.
pub fn push_padded(out: &mut String, n: usize, width: usize)
    ensures
        final(out)@ == old(out)@ + padded(n as nat, width as nat),
{
    let digits = decimal_width(n);
    let pad = if width > digits {
        width - digits
    } else {
        0
    };
    let mut done: usize = 0;
    while done < pad
        invariant
            done <= pad,
            out@ == old(out)@ + spaces(done as nat),
        decreases pad - done,
    {
        out.push(' ');
        done = done + 1;
        proof {
            assert(out@ =~= old(out)@ + spaces(done as nat));
        }
    }
    let ghost indented = out@;
    push_decimal(out, n);
    proof {
        assert(indented == old(out)@ + spaces(pad as nat));
        assert(out@ == indented + decimal(n as nat));
        assert(out@ =~= old(out)@ + (spaces(pad as nat) + decimal(n as nat)));
    }
}

/// The text of a line-number gutter for `line_count` lines, and the width
/// of its numbers.
pub fn build_line_numbers_text(line_count: usize) -> (gutter: (String, usize))
    ensures
        (gutter.0@, gutter.1 as nat) == line_numbers(line_count as nat),
{
    let count = if line_count == 0 {
        1
    } else {
        line_count
    };
    let digits = decimal_width(count);
    let mut text = String::new();
    let mut done: usize = 0;
    while done < count
        invariant
            done <= count,
            text@ == numbered_lines(done as nat, digits as nat),
        decreases count - done,
    {
        let line = done + 1;
        if line > 1 {
            text.push('\n');
        }
        let ghost before = text@;
        push_padded(&mut text, line, digits);
        proof {
            assert(text@ =~= numbered_lines(line as nat, digits as nat));
        }
        done = line;
    }
    (text, digits)
}

/// The text of the search bar.
pub fn build_search_bar_text(query: &str, preedit: Option<&str>) -> (text: String)
    ensures
        text@ == search_bar_text(query@, opt_view(preedit)),
{
    let mut text = String::from_str("Search:");
    if !query.is_empty() || preedit.is_some() {
        text.push(' ');
        text.append(query);
        if let Some(composed) = preedit {
            text.append(composed);
        }
    }
    proof {
        reveal_strlit(" ");
        assert(text@ =~= search_bar_text(query@, opt_view(preedit)));
    }
    text
}

/// The query that is searched for.
pub fn build_search_effective_query(query: &str, preedit: Option<&str>) -> (text: String)
    ensures
        text@ == effective_query(query@, opt_view(preedit)),
{
    let mut text = String::from_str(query);
    if let Some(composed) = preedit {
        text.append(composed);
    }
    text
}

/// The number, counted from 1, of the match that the cursor is at.
pub fn current_match_index(matches: &[usize], cursor: usize, query_len: usize) -> (number: usize)
    ensures
        number == current_match(matches@, cursor as nat, query_len as nat),
{
    if matches.len() == 0 || query_len == 0 {
        return 0;
    }
    let mut index: usize = 0;
    while index < matches.len()
        invariant
            index <= matches.len(),
            matches.len() > 0,
            query_len > 0,
            first_covering(matches@, cursor as nat, query_len as nat, 0) == first_covering(
                matches@,
                cursor as nat,
                query_len as nat,
                index as nat,
            ),
        decreases matches.len() - index,
    {
        let pos = matches[index];
        if cursor >= pos && cursor - pos < query_len {
            return index + 1;
        }
        index = index + 1;
    }
    let mut index: usize = 0;
    while index < matches.len()
        invariant
            index <= matches.len(),
            matches.len() > 0,
            query_len > 0,
            first_covering(matches@, cursor as nat, query_len as nat, 0).is_none(),
            first_behind(matches@, cursor as nat, 0) == first_behind(
                matches@,
                cursor as nat,
                index as nat,
            ),
        decreases matches.len() - index,
    {
        if matches[index] > cursor {
            return index + 1;
        }
        index = index + 1;
    }
    1
}

} // verus!
