//! Text as UTF-16: each character one code unit, or a pair of surrogates for
//! the characters from U+10000 on, and each code unit two bytes in either
//! order.

use crate::utf8::chars_of;
use vstd::prelude::*;

verus! {

/// The two bytes of a code unit, the high one first where `big_endian` says
/// so.
pub open spec fn unit_bytes(unit: int, big_endian: bool) -> Seq<u8> {
    if big_endian {
        seq![(unit / 256) as u8, (unit % 256) as u8]
    } else {
        seq![(unit % 256) as u8, (unit / 256) as u8]
    }
}

/// The UTF-16 bytes of one character: the character's own number below
/// U+10000; from there on a high surrogate, which carries the upper ten bits
/// of what lies above U+10000, and a low surrogate, which carries the lower
/// ten.
pub open spec fn char_utf16_bytes(c: char, big_endian: bool) -> Seq<u8> {
    if (c as u32) < 0x10000 {
        unit_bytes(c as u32 as int, big_endian)
    } else {
        unit_bytes(0xD800 + (c as u32 - 0x10000) / 0x400, big_endian) + unit_bytes(
            0xDC00 + (c as u32 - 0x10000) % 0x400,
            big_endian,
        )
    }
}

/// The UTF-16 bytes of a text, without a byte-order mark.
pub open spec fn utf16_bytes(text: Seq<char>, big_endian: bool) -> Seq<u8>
    decreases text.len(),
{
    if text.len() == 0 {
        Seq::empty()
    } else {
        utf16_bytes(text.drop_last(), big_endian) + char_utf16_bytes(text.last(), big_endian)
    }
}

/// Whether `bytes` are the UTF-16 bytes of some text.
pub open spec fn is_utf16(bytes: Seq<u8>, big_endian: bool) -> bool {
    exists|text: Seq<char>| #[trigger] utf16_bytes(text, big_endian) == bytes
}

/// The text whose UTF-16 bytes `bytes` are.
pub open spec fn utf16_text(bytes: Seq<u8>, big_endian: bool) -> Seq<char> {
    choose|text: Seq<char>| #[trigger] utf16_bytes(text, big_endian) == bytes
}

/// Whether the last two of `bytes` are a low surrogate.
spec fn ends_in_low_surrogate(bytes: Seq<u8>, big_endian: bool) -> bool {
    let high = if big_endian {
        bytes[bytes.len() - 2]
    } else {
        bytes[bytes.len() - 1]
    };
    0xDC <= high <= 0xDF
}

/// The bytes of a character are two or four, and end in a low surrogate just
/// where they are four.
proof fn lemma_char_utf16_bytes(c: char, big_endian: bool)
    ensures
        char_utf16_bytes(c, big_endian).len() == if (c as u32) < 0x10000 {
            2nat
        } else {
            4nat
        },
        ends_in_low_surrogate(char_utf16_bytes(c, big_endian), big_endian) == ((c as u32)
            >= 0x10000),
{
    vstd::utf8::char_is_scalar(c);
}

/// Two characters with the same UTF-16 bytes are the same character.
proof fn lemma_char_utf16_injective(a: char, b: char, big_endian: bool)
    requires
        char_utf16_bytes(a, big_endian) == char_utf16_bytes(b, big_endian),
    ensures
        a == b,
{
    lemma_char_utf16_bytes(a, big_endian);
    lemma_char_utf16_bytes(b, big_endian);
    let x = char_utf16_bytes(a, big_endian);
    let y = char_utf16_bytes(b, big_endian);
    let va = a as u32 as int;
    let vb = b as u32 as int;
    vstd::utf8::char_is_scalar(a);
    vstd::utf8::char_is_scalar(b);
    assert(x[0] == y[0] && x[1] == y[1]);
    if va < 0x10000 {
        assert(va == vb);
    } else {
        assert(x[2] == y[2] && x[3] == y[3]);
        let ha = 0xD800 + (va - 0x10000) / 0x400;
        let hb = 0xD800 + (vb - 0x10000) / 0x400;
        let la = 0xDC00 + (va - 0x10000) % 0x400;
        let lb = 0xDC00 + (vb - 0x10000) % 0x400;
        assert(unit_bytes(ha, big_endian)[0] == x[0]);
        assert(unit_bytes(ha, big_endian)[1] == x[1]);
        assert(unit_bytes(la, big_endian)[0] == x[2]);
        assert(unit_bytes(la, big_endian)[1] == x[3]);
        assert(unit_bytes(hb, big_endian)[0] == y[0]);
        assert(unit_bytes(hb, big_endian)[1] == y[1]);
        assert(unit_bytes(lb, big_endian)[0] == y[2]);
        assert(unit_bytes(lb, big_endian)[1] == y[3]);
        assert(ha == hb);
        assert(la == lb);
        assert(va == vb);
    }
    vstd::utf8::char_u32_cast(a, a as u32);
    vstd::utf8::char_u32_cast(b, b as u32);
}

/// Two texts with the same UTF-16 bytes are the same text.
pub proof fn lemma_utf16_injective(a: Seq<char>, b: Seq<char>, big_endian: bool)
    requires
        utf16_bytes(a, big_endian) == utf16_bytes(b, big_endian),
    ensures
        a == b,
    decreases a.len(),
{
    if a.len() == 0 {
        assert(utf16_bytes(a, big_endian).len() == 0);
        if b.len() > 0 {
            lemma_char_utf16_bytes(b.last(), big_endian);
            assert(utf16_bytes(b, big_endian).len() >= 2);
        }
        assert(a =~= b);
    } else if b.len() == 0 {
        assert(utf16_bytes(b, big_endian).len() == 0);
        lemma_char_utf16_bytes(a.last(), big_endian);
        assert(utf16_bytes(a, big_endian).len() >= 2);
    } else {
        let x = char_utf16_bytes(a.last(), big_endian);
        let y = char_utf16_bytes(b.last(), big_endian);
        let p = utf16_bytes(a.drop_last(), big_endian);
        let q = utf16_bytes(b.drop_last(), big_endian);
        let all = utf16_bytes(a, big_endian);
        lemma_char_utf16_bytes(a.last(), big_endian);
        lemma_char_utf16_bytes(b.last(), big_endian);
        assert(all == p + x);
        assert(all == q + y);
        assert(all[all.len() - 1] == x[x.len() - 1]);
        assert(all[all.len() - 2] == x[x.len() - 2]);
        assert(all[all.len() - 1] == y[y.len() - 1]);
        assert(all[all.len() - 2] == y[y.len() - 2]);
        assert(x.len() == y.len());
        assert(x =~= all.subrange(all.len() - x.len(), all.len() as int));
        assert(y =~= all.subrange(all.len() - y.len(), all.len() as int));
        assert(p =~= all.subrange(0, all.len() - x.len()));
        assert(q =~= all.subrange(0, all.len() - y.len()));
        lemma_char_utf16_injective(a.last(), b.last(), big_endian);
        lemma_utf16_injective(a.drop_last(), b.drop_last(), big_endian);
        assert(a =~= a.drop_last().push(a.last()));
        assert(b =~= b.drop_last().push(b.last()));
    }
}

/// The UTF-16 bytes of a text are the bytes of that text and of no other.
pub proof fn lemma_utf16_text_of_bytes(text: Seq<char>, big_endian: bool)
    ensures
        is_utf16(utf16_bytes(text, big_endian), big_endian),
        utf16_text(utf16_bytes(text, big_endian), big_endian) == text,
{
    let bytes = utf16_bytes(text, big_endian);
    assert(utf16_bytes(text, big_endian) == bytes);
    lemma_utf16_injective(utf16_text(bytes, big_endian), text, big_endian);
}

/// The first two bytes of a text's UTF-16 bytes are the first two bytes of
/// its first character.
pub proof fn lemma_utf16_first_bytes(text: Seq<char>, big_endian: bool)
    requires
        text.len() > 0,
    ensures
        utf16_bytes(text, big_endian).len() >= 2,
        utf16_bytes(text, big_endian)[0] == char_utf16_bytes(text[0], big_endian)[0],
        utf16_bytes(text, big_endian)[1] == char_utf16_bytes(text[0], big_endian)[1],
    decreases text.len(),
{
    lemma_char_utf16_bytes(text.last(), big_endian);
    if text.len() == 1 {
        assert(utf16_bytes(text.drop_last(), big_endian) =~= Seq::<u8>::empty());
        assert(utf16_bytes(text, big_endian) =~= char_utf16_bytes(text[0], big_endian));
    } else {
        lemma_utf16_first_bytes(text.drop_last(), big_endian);
    }
}

/// Appends the two bytes of a code unit.
fn push_unit(out: &mut Vec<u8>, unit: u16, big_endian: bool)
    ensures
        final(out)@ == old(out)@ + unit_bytes(unit as int, big_endian),
{
    let high = (unit / 256) as u8;
    let low = (unit % 256) as u8;
    if big_endian {
        out.push(high);
        out.push(low);
    } else {
        out.push(low);
        out.push(high);
    }
    proof {
        assert(out@ =~= old(out)@ + unit_bytes(unit as int, big_endian));
    }
}

/// The UTF-16 bytes of `text`, without a byte-order mark, the high byte of
/// each code unit first where `big_endian` says so.
pub fn encode_utf16(text: &str, big_endian: bool) -> (bytes: Vec<u8>)
    ensures
        bytes@ == utf16_bytes(text@, big_endian),
{
    let chars = chars_of(text);
    let mut bytes: Vec<u8> = Vec::new();
    let mut k: usize = 0;
    while k < chars.len()
        invariant
            k <= chars.len(),
            chars@ == text@,
            bytes@ == utf16_bytes(chars@.take(k as int), big_endian),
        decreases chars.len() - k,
    {
        let ghost before = bytes@;
        let scalar = chars[k] as u32;
        proof {
            vstd::utf8::char_is_scalar(chars@[k as int]);
        }
        if scalar < 0x10000 {
            push_unit(&mut bytes, scalar as u16, big_endian);
        } else {
            let above = scalar - 0x10000;
            push_unit(&mut bytes, (0xD800 + above / 0x400) as u16, big_endian);
            push_unit(&mut bytes, (0xDC00 + above % 0x400) as u16, big_endian);
        }
        proof {
            assert(chars@.take(k + 1).drop_last() =~= chars@.take(k as int));
            assert(bytes@ =~= before + char_utf16_bytes(chars@[k as int], big_endian));
        }
        k = k + 1;
    }
    proof {
        assert(chars@.take(k as int) =~= chars@);
    }
    bytes
}

} // verus!
