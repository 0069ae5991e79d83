//! Lines of a text, as mathematics over `Seq<char>`.
//!
//! A line ends with its line feed; the text after the last line feed is the
//! last line, which may be empty. A text with `n` line feeds has `n + 1` lines.

use vstd::prelude::*;

verus! {

/// The number of line feeds in `s`.
pub open spec fn newline_count(s: Seq<char>) -> nat
    decreases s.len(),
{
    if s.len() == 0 {
        0
    } else {
        newline_count(s.drop_last()) + if s.last() == '\n' { 1nat } else { 0nat }
    }
}

/// The number of lines of `s`.
pub open spec fn line_count(s: Seq<char>) -> nat {
    newline_count(s) + 1
}

/// The index of the line on which offset `i` lies: the number of line feeds in
/// front of it.
pub open spec fn line_of(s: Seq<char>, i: int) -> nat {
    newline_count(s.take(i))
}

/// The offset at which line `k` starts: the position behind the `k`-th line
/// feed, or the end of the text where `s` has fewer than `k` line feeds.
pub open spec fn line_start(s: Seq<char>, k: nat) -> nat
    decreases s.len(),
{
    if k == 0 || s.len() == 0 {
        0
    } else if newline_count(s.drop_last()) >= k {
        line_start(s.drop_last(), k)
    } else {
        s.len()
    }
}

/// The offset behind the last character of line `k` that is not its line feed.
pub open spec fn line_end(s: Seq<char>, k: nat) -> nat {
    if k + 1 < line_count(s) {
        (line_start(s, k + 1) - 1) as nat
    } else {
        s.len()
    }
}

/// The length of line `k` without the line feed that ends it.
pub open spec fn line_len(s: Seq<char>, k: nat) -> nat {
    (line_end(s, k) - line_start(s, k)) as nat
}

/// A prefix holds no more line feeds than the whole.
pub proof fn lemma_newline_count_prefix(s: Seq<char>, i: int)
    requires
        0 <= i <= s.len(),
    ensures
        newline_count(s.take(i)) <= newline_count(s),
    decreases s.len(),
{
    if i == s.len() {
        assert(s.take(i) =~= s);
    } else {
        assert(s.take(i) =~= s.drop_last().take(i));
        lemma_newline_count_prefix(s.drop_last(), i);
    }
}

/// Line feeds are counted prefix by prefix.
pub proof fn lemma_newline_count_step(s: Seq<char>, i: int)
    requires
        0 <= i < s.len(),
    ensures
        newline_count(s.take(i + 1)) == newline_count(s.take(i)) + if s[i] == '\n' {
            1nat
        } else {
            0nat
        },
{
    assert(s.take(i + 1).drop_last() =~= s.take(i));
}

/// A longer prefix holds no fewer line feeds.
pub proof fn lemma_newline_count_monotone(s: Seq<char>, i: int, j: int)
    requires
        0 <= i <= j <= s.len(),
    ensures
        newline_count(s.take(i)) <= newline_count(s.take(j)),
{
    assert(s.take(j).take(i) =~= s.take(i));
    lemma_newline_count_prefix(s.take(j), i);
}

/// A line starts within the text or at its end.
pub proof fn lemma_line_start_bound(s: Seq<char>, k: nat)
    ensures
        line_start(s, k) <= s.len(),
    decreases s.len(),
{
    if k != 0 && s.len() != 0 && newline_count(s.drop_last()) >= k {
        lemma_line_start_bound(s.drop_last(), k);
    }
}

/// Later lines start later.
pub proof fn lemma_line_start_monotone(s: Seq<char>, j: nat, k: nat)
    requires
        j <= k,
    ensures
        line_start(s, j) <= line_start(s, k),
    decreases s.len(),
{
    lemma_line_start_bound(s, j);
    if j != 0 && s.len() != 0 && newline_count(s.drop_last()) >= k {
        lemma_line_start_monotone(s.drop_last(), j, k);
    }
}

/// The line feed in front of line `k`: it stands just before the line's start,
/// and it is the `k`-th of the text.
pub proof fn lemma_line_start_follows_newline(s: Seq<char>, k: nat)
    requires
        1 <= k <= newline_count(s),
    ensures
        1 <= line_start(s, k) <= s.len(),
        s[line_start(s, k) - 1] == '\n',
        newline_count(s.take(line_start(s, k) as int)) == k,
    decreases s.len(),
{
    if newline_count(s.drop_last()) >= k {
        let p = s.drop_last();
        lemma_line_start_follows_newline(p, k);
        assert(s.take(line_start(p, k) as int) =~= p.take(line_start(p, k) as int));
    } else {
        assert(s.take(s.len() as int) =~= s);
    }
}

/// The line on which an offset lies starts at or before that offset.
pub proof fn lemma_line_start_of_line_of(s: Seq<char>, i: int)
    requires
        0 <= i <= s.len(),
    ensures
        line_start(s, line_of(s, i)) <= i,
    decreases s.len(),
{
    let n = line_of(s, i);
    if n == 0 || s.len() == 0 {
    } else if i == s.len() {
        assert(s.take(i) =~= s);
        if newline_count(s.drop_last()) >= n {
            let p = s.drop_last();
            assert(p.take(p.len() as int) =~= p);
            lemma_line_start_of_line_of(p, p.len() as int);
        }
    } else {
        let p = s.drop_last();
        assert(s.take(i) =~= p.take(i));
        lemma_newline_count_prefix(p, i);
        lemma_line_start_of_line_of(p, i);
    }
}

/// Every line but the last holds at least its line feed.
pub proof fn lemma_line_start_next(s: Seq<char>, k: nat)
    requires
        k + 1 < line_count(s),
    ensures
        line_start(s, k) + 1 <= line_start(s, k + 1) <= s.len(),
    decreases s.len(),
{
    lemma_line_start_follows_newline(s, k + 1);
    let e = line_start(s, k + 1);
    if k > 0 {
        lemma_line_start_follows_newline(s, k);
        let b = line_start(s, k);
        if b >= e {
            lemma_newline_count_monotone(s, e as int, b as int);
            if b > e {
                lemma_newline_count_monotone(s, e as int, b - 1);
                lemma_newline_count_step(s, b - 1);
            }
        }
    }
}

/// A line's end lies between its start and the end of the text.
pub proof fn lemma_line_end_bounds(s: Seq<char>, k: nat)
    ensures
        line_start(s, k) <= line_end(s, k) <= s.len(),
{
    lemma_line_start_bound(s, k);
    if k + 1 < line_count(s) {
        lemma_line_start_next(s, k);
    }
}

} // verus!
