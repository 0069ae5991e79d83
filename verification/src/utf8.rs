//! Byte offsets into text that is stored as UTF-8.

use vstd::prelude::*;
use vstd::string::StringSliceAdditionalSpecFns;
use vstd::utf8::{char_is_scalar, encode_scalar, encode_utf8};

verus! {

/// The number of bytes that a character takes in UTF-8.
pub open spec fn utf8_width(c: char) -> nat {
    if (c as u32) < 0x80 {
        1
    } else if (c as u32) < 0x800 {
        2
    } else if (c as u32) < 0x10000 {
        3
    } else {
        4
    }
}

/// The number of bytes that `s` takes in UTF-8.
pub open spec fn utf8_len(s: Seq<char>) -> nat
    decreases s.len(),
{
    if s.len() == 0 {
        0
    } else {
        utf8_len(s.drop_last()) + utf8_width(s.last())
    }
}

/// The number of leading characters of `s` that lie wholly within its first
/// `end` bytes.
pub open spec fn chars_within(s: Seq<char>, end: nat) -> nat
    decreases s.len(),
{
    if s.len() == 0 || utf8_len(s) <= end {
        s.len()
    } else {
        chars_within(s.drop_last(), end)
    }
}

/// A prefix takes no more bytes than the whole.
pub proof fn lemma_utf8_len_prefix(s: Seq<char>, k: int)
    requires
        0 <= k <= s.len(),
    ensures
        utf8_len(s.take(k)) <= utf8_len(s),
    decreases s.len(),
{
    if k == s.len() {
        assert(s.take(k) =~= s);
    } else {
        assert(s.take(k) =~= s.drop_last().take(k));
        lemma_utf8_len_prefix(s.drop_last(), k);
    }
}

/// Bytes are counted character by character.
pub proof fn lemma_utf8_len_step(s: Seq<char>, k: int)
    requires
        0 <= k < s.len(),
    ensures
        utf8_len(s.take(k + 1)) == utf8_len(s.take(k)) + utf8_width(s[k]),
{
    assert(s.take(k + 1).drop_last() =~= s.take(k));
}

/// `chars_within(s, end)` is the one `k` for which the first `k` characters
/// fit into `end` bytes and one more would not.
pub proof fn lemma_chars_within(s: Seq<char>, end: nat, k: int)
    requires
        0 <= k <= s.len(),
        utf8_len(s.take(k)) <= end,
        k < s.len() ==> utf8_len(s.take(k + 1)) > end,
    ensures
        chars_within(s, end) == k,
    decreases s.len(),
{
    if s.len() == 0 {
    } else if utf8_len(s) <= end {
        if k < s.len() {
            lemma_utf8_len_prefix(s, k + 1);
        }
    } else {
        if k == s.len() {
            assert(s.take(k) =~= s);
        }
        let p = s.drop_last();
        assert(p.take(k) =~= s.take(k));
        if k < p.len() {
            assert(p.take(k + 1) =~= s.take(k + 1));
        }
        lemma_chars_within(p, end, k);
    }
}

/// The number of bytes that `c` takes in UTF-8.
pub fn width_of(c: char) -> (width: usize)
    ensures
        width == utf8_width(c),
        1 <= width <= 4,
{
    let scalar = c as u32;
    if scalar < 0x80 {
        1
    } else if scalar < 0x800 {
        2
    } else if scalar < 0x10000 {
        3
    } else {
        4
    }
}

/// The UTF-8 bytes of a text with one more character are the bytes of the
/// text, then the bytes of the character.
pub proof fn lemma_encode_utf8_push(text: Seq<char>, c: char)
    ensures
        encode_utf8(text.push(c)) == encode_utf8(text) + encode_scalar(c as u32),
    decreases text.len(),
{
    let longer = text.push(c);
    if text.len() == 0 {
        assert(longer.drop_first() =~= Seq::<char>::empty());
        assert(encode_utf8(Seq::<char>::empty()) =~= Seq::<u8>::empty());
        assert(longer[0] == c);
        assert(encode_utf8(longer) == encode_scalar(c as u32) + encode_utf8(longer.drop_first()));
        assert(encode_utf8(longer) =~= encode_scalar(c as u32));
        assert(encode_utf8(text) + encode_scalar(c as u32) =~= encode_scalar(c as u32));
    } else {
        assert(longer.drop_first() =~= text.drop_first().push(c));
        lemma_encode_utf8_push(text.drop_first(), c);
        assert(longer[0] == text[0]);
        assert(encode_utf8(longer) == encode_scalar(text[0] as u32) + encode_utf8(
            longer.drop_first(),
        ));
        assert(encode_utf8(longer) =~= encode_utf8(text) + encode_scalar(c as u32));
    }
}

/// Byte offsets are offsets into the text's UTF-8 encoding: a text takes as
/// many bytes as its encoding is long.
pub proof fn law_utf8_len_is_encoded_length(text: Seq<char>)
    ensures
        utf8_len(text) == encode_utf8(text).len(),
    decreases text.len(),
{
    if text.len() > 0 {
        let c = text.last();
        law_utf8_len_is_encoded_length(text.drop_last());
        lemma_encode_utf8_push(text.drop_last(), c);
        assert(text.drop_last().push(c) =~= text);
        char_is_scalar(c);
        assert(encode_scalar(c as u32).len() == utf8_width(c));
    }
}

/// The length of `text` in bytes.
pub fn byte_len(text: &str) -> (len: usize)
    ensures
        len == utf8_len(text@),
{
    proof {
        law_utf8_len_is_encoded_length(text@);
    }
    text.as_bytes().len()
}

/// The characters of `text`, one by one.
pub fn chars_of(text: &str) -> (chars: Vec<char>)
    ensures
        chars@ == text@,
{
    let mut chars: Vec<char> = Vec::new();
    for c in it: text.chars()
        invariant
            it.seq() == text@,
            chars@ == it.seq().take(it.index() as int),
    {
        proof {
            assert(it.seq().take(it.index() + 1) =~= it.seq().take(it.index() as int).push(c));
        }
        chars.push(c);
    }
    proof {
        assert(text@.take(text@.len() as int) =~= text@);
    }
    chars
}

/// The byte offset at which the character with index `char_idx` starts, or
/// the length of `text` in bytes where it has no such character.
pub fn char_to_byte_idx(text: &str, char_idx: usize) -> (byte_idx: usize)
    ensures
        byte_idx == utf8_len(
            text@.take(
                if char_idx <= text@.len() {
                    char_idx as int
                } else {
                    text@.len() as int
                },
            ),
        ),
{
    let total = byte_len(text);
    let chars = chars_of(text);
    let mut k: usize = 0;
    let mut bytes: usize = 0;
    while k < chars.len() && k < char_idx
        invariant
            chars@ == text@,
            total == utf8_len(text@),
            k <= chars.len(),
            k <= char_idx,
            bytes == utf8_len(chars@.take(k as int)),
        decreases chars.len() - k,
    {
        proof {
            lemma_utf8_len_step(chars@, k as int);
            lemma_utf8_len_prefix(chars@, k + 1);
        }
        bytes = bytes + width_of(chars[k]);
        k = k + 1;
    }
    if k < char_idx {
        proof {
            assert(chars@.take(k as int) =~= chars@);
        }
        total
    } else {
        bytes
    }
}

/// The number of leading characters of `text` that lie wholly within its
/// first `end` bytes.
pub fn chars_before(text: &str, end: usize) -> (count: usize)
    ensures
        count == chars_within(text@, end as nat),
{
    let chars = chars_of(text);
    let mut k: usize = 0;
    let mut bytes: usize = 0;
    let mut fits = true;
    while fits && k < chars.len()
        invariant
            k <= chars.len(),
            bytes == utf8_len(chars@.take(k as int)),
            bytes <= end,
            !fits ==> k < chars.len() && utf8_len(chars@.take(k + 1)) > end,
        decreases chars.len() - k + if fits { 1int } else { 0int },
    {
        proof {
            lemma_utf8_len_step(chars@, k as int);
        }
        let width = width_of(chars[k]);
        if width > end - bytes {
            fits = false;
        } else {
            bytes = bytes + width;
            k = k + 1;
        }
    }
    proof {
        lemma_chars_within(chars@, end as nat, k as int);
    }
    k
}

} // verus!
