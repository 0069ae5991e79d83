//! Substring search over plain text, by character offsets.

use crate::utf8::chars_of;
use vstd::prelude::*;

verus! {

/// Whether `query` stands in `text` at offset `at`.
pub open spec fn matches_at(text: Seq<char>, query: Seq<char>, at: int) -> bool {
    0 <= at && at + query.len() <= text.len() && text.subrange(at, at + query.len()) == query
}

/// The first offset at or after `from` at which `query` stands in `text`.
pub open spec fn first_match(text: Seq<char>, query: Seq<char>, from: int) -> Option<int>
    decreases text.len() - from,
{
    if from < 0 || from + query.len() > text.len() {
        None
    } else if matches_at(text, query, from) {
        Some(from)
    } else if from >= text.len() {
        None
    } else {
        first_match(text, query, from + 1)
    }
}

/// The offsets at which `query` stands in `text`, found from `from` on, left
/// to right, each search beginning behind the match before: no two of them
/// overlap. An empty query is found nowhere.
pub open spec fn matches_from(text: Seq<char>, query: Seq<char>, from: int) -> Seq<int>
    decreases text.len() - from,
{
    if query.len() == 0 || from < 0 || from + query.len() > text.len() {
        Seq::empty()
    } else if matches_at(text, query, from) {
        seq![from] + matches_from(text, query, from + query.len())
    } else {
        matches_from(text, query, from + 1)
    }
}

/// The last of `offsets` that lies below `bound`.
pub open spec fn last_below(offsets: Seq<int>, bound: int) -> Option<int>
    decreases offsets.len(),
{
    if offsets.len() == 0 {
        None
    } else if offsets.last() < bound {
        Some(offsets.last())
    } else {
        last_below(offsets.drop_last(), bound)
    }
}

/// The match that a forward search from `start` arrives at: the first one at
/// or after `start`, or else, going round, the first one of the text.
pub open spec fn next_match(text: Seq<char>, query: Seq<char>, start: nat) -> Option<int> {
    let from = if start <= text.len() {
        start as int
    } else {
        text.len() as int
    };
    if query.len() == 0 || text.len() == 0 {
        None
    } else if first_match(text, query, from).is_some() {
        first_match(text, query, from)
    } else if from > 0 {
        first_match(text, query, 0)
    } else {
        None
    }
}

/// The match that a backward search from `start` arrives at: among the
/// matches of [`matches_from`] the last one that begins before `start`, or
/// else, going round, the last one of the text.
pub open spec fn prev_match(text: Seq<char>, query: Seq<char>, start: nat) -> Option<int> {
    let from = if start <= text.len() {
        start as int
    } else {
        text.len() as int
    };
    let found = matches_from(text, query, 0);
    if query.len() == 0 || text.len() == 0 || found.len() == 0 {
        None
    } else if last_below(found, from).is_some() {
        last_below(found, from)
    } else {
        Some(found.last())
    }
}

/// What `first_match` finds is a match at or after `from`, and no match lies
/// between; where it finds nothing, no match lies at or after `from`.
pub proof fn lemma_first_match_is_least(text: Seq<char>, query: Seq<char>, from: int)
    requires
        0 <= from,
    ensures
        match first_match(text, query, from) {
            Some(at) => from <= at && matches_at(text, query, at) && forall|j: int|
                from <= j < at ==> !matches_at(text, query, j),
            None => forall|j: int| from <= j ==> !matches_at(text, query, j),
        },
    decreases text.len() - from,
{
    if from + query.len() <= text.len() && !matches_at(text, query, from) && from < text.len() {
        lemma_first_match_is_least(text, query, from + 1);
    }
}

/// The matches from `from` on begin with the first match, and go on behind
/// it.
pub proof fn lemma_matches_from_first(text: Seq<char>, query: Seq<char>, from: int)
    requires
        0 <= from,
        query.len() > 0,
    ensures
        matches_from(text, query, from) == match first_match(text, query, from) {
            Some(at) => seq![at] + matches_from(text, query, at + query.len()),
            None => Seq::empty(),
        },
    decreases text.len() - from,
{
    if from + query.len() <= text.len() && !matches_at(text, query, from) {
        lemma_matches_from_first(text, query, from + 1);
    }
}

/// Whether `query` stands in `text` at offset `at`.
fn match_at(text: &Vec<char>, query: &Vec<char>, at: usize) -> (found: bool)
    requires
        at + query.len() <= text.len(),
    ensures
        found == matches_at(text@, query@, at as int),
{
    let mut k: usize = 0;
    while k < query.len()
        invariant
            at + query.len() <= text.len(),
            k <= query.len(),
            forall|j: int| 0 <= j < k ==> text@[at + j] == query@[j],
        decreases query.len() - k,
    {
        if text[at + k] != query[k] {
            proof {
                assert(text@.subrange(at as int, at + query.len())[k as int] == text@[at + k]);
            }
            return false;
        }
        k = k + 1;
    }
    proof {
        assert(text@.subrange(at as int, at + query.len()) =~= query@);
    }
    true
}

/// The first offset at or after `start` at which `query` stands in `text`.
pub fn find_in_chars(text: &Vec<char>, query: &Vec<char>, start: usize) -> (found: Option<usize>)
    ensures
        match found {
            Some(at) => first_match(text@, query@, start as int) == Some(at as int),
            None => first_match(text@, query@, start as int).is_none(),
        },
{
    if query.len() > text.len() || start > text.len() - query.len() {
        return None;
    }
    let last = text.len() - query.len();
    let mut at: usize = start;
    while at < last
        invariant
            last == text.len() - query.len(),
            query.len() <= text.len(),
            start <= at <= last,
            first_match(text@, query@, start as int) == first_match(text@, query@, at as int),
        decreases last - at,
    {
        if match_at(text, query, at) {
            return Some(at);
        }
        at = at + 1;
    }
    if match_at(text, query, last) {
        Some(last)
    } else {
        proof {
            assert(first_match(text@, query@, last + 1).is_none());
        }
        None
    }
}

/// The first offset at or after `start_char` at which `query` stands in
/// `text`, counted in characters. A start beyond the text is taken as its
/// end.
pub fn find_in_text(text: &str, query: &str, start_char: usize) -> (found: Option<usize>)
    ensures
        match found {
            Some(at) => first_match(
                text@,
                query@,
                if start_char <= text@.len() {
                    start_char as int
                } else {
                    text@.len() as int
                },
            ) == Some(at as int),
            None => first_match(
                text@,
                query@,
                if start_char <= text@.len() {
                    start_char as int
                } else {
                    text@.len() as int
                },
            ).is_none(),
        },
{
    let chars = chars_of(text);
    let wanted = chars_of(query);
    let start = if start_char <= chars.len() {
        start_char
    } else {
        chars.len()
    };
    find_in_chars(&chars, &wanted, start)
}

/// The offsets of `found`, as integers.
pub open spec fn offsets_of(found: Seq<usize>) -> Seq<int> {
    found.map_values(|at: usize| at as int)
}

/// All the places at which `query` stands in `text`, as [`matches_from`]
/// finds them from the start of the text.
pub fn find_all_in_chars(text: &Vec<char>, query: &Vec<char>) -> (found: Vec<usize>)
    ensures
        offsets_of(found@) == matches_from(text@, query@, 0),
{
    let mut found: Vec<usize> = Vec::new();
    if query.len() == 0 {
        proof {
            assert(offsets_of(found@) =~= Seq::<int>::empty());
        }
        return found;
    }
    let mut cursor: usize = 0;
    let mut searching = true;
    while searching
        invariant
            query.len() > 0,
            cursor <= text.len(),
            searching ==> offsets_of(found@) + matches_from(text@, query@, cursor as int)
                == matches_from(text@, query@, 0),
            !searching ==> offsets_of(found@) == matches_from(text@, query@, 0),
        decreases text.len() - cursor + if searching { 1int } else { 0int },
    {
        proof {
            lemma_matches_from_first(text@, query@, cursor as int);
            lemma_first_match_is_least(text@, query@, cursor as int);
        }
        match find_in_chars(text, query, cursor) {
            None => {
                proof {
                    assert(offsets_of(found@) + Seq::<int>::empty() =~= offsets_of(found@));
                }
                searching = false;
            },
            Some(at) => {
                let ghost before = offsets_of(found@);
                found.push(at);
                proof {
                    assert(offsets_of(found@) =~= before.push(at as int));
                    assert(before.push(at as int) + matches_from(
                        text@,
                        query@,
                        at + query.len(),
                    ) =~= before + (seq![at as int] + matches_from(text@, query@, at + query.len())));
                }
                cursor = at + query.len();
            },
        }
    }
    found
}

/// All the places at which `query` stands in `text`, search by search from
/// left to right, each search beginning behind the match before. An empty
/// query is found nowhere.
pub fn find_all_in_text(text: &str, query: &str) -> (found: Vec<usize>)
    ensures
        offsets_of(found@) == matches_from(text@, query@, 0),
{
    let chars = chars_of(text);
    let wanted = chars_of(query);
    find_all_in_chars(&chars, &wanted)
}

} // verus!
