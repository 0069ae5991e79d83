//! The text encodings that a document can be loaded from and saved in.

use crate::utf16::{is_utf16, utf16_bytes, utf16_text};
use encoding_rs::Encoding;
use vstd::prelude::*;
use vstd::utf8::{decode_utf8, encode_utf8, is_ascii_chars, valid_utf8};

verus! {

/// One of the encodings that the editor reads and writes.
#[derive(Debug, Clone, Copy, PartialEq, Eq, Structural)]
pub enum TextEncoding {
    Utf8,
    Utf16Le,
    Utf16Be,
    ShiftJis,
}

/// The name under which an encoding is shown.
pub open spec fn label_of(encoding: TextEncoding) -> Seq<char> {
    match encoding {
        TextEncoding::Utf8 => "UTF-8"@,
        TextEncoding::Utf16Le => "UTF-16LE"@,
        TextEncoding::Utf16Be => "UTF-16BE"@,
        TextEncoding::ShiftJis => "Shift_JIS"@,
    }
}

/// The byte-order mark that a file in an encoding starts with: two bytes for
/// the UTF-16 variants, none for the others.
pub open spec fn bom_of(encoding: TextEncoding) -> Seq<u8> {
    match encoding {
        TextEncoding::Utf8 => seq![],
        TextEncoding::Utf16Le => seq![0xFFu8, 0xFEu8],
        TextEncoding::Utf16Be => seq![0xFEu8, 0xFFu8],
        TextEncoding::ShiftJis => seq![],
    }
}

/// The encoding that follows another when the user cycles through them.
pub open spec fn successor_of(encoding: TextEncoding) -> TextEncoding {
    match encoding {
        TextEncoding::Utf8 => TextEncoding::Utf16Le,
        TextEncoding::Utf16Le => TextEncoding::Utf16Be,
        TextEncoding::Utf16Be => TextEncoding::ShiftJis,
        TextEncoding::ShiftJis => TextEncoding::Utf8,
    }
}

impl TextEncoding {
    /// The name under which the encoding is shown.
    pub fn label(self) -> (name: &'static str)
        ensures
            name@ == label_of(self),
    {
        match self {
            TextEncoding::Utf8 => "UTF-8",
            TextEncoding::Utf16Le => "UTF-16LE",
            TextEncoding::Utf16Be => "UTF-16BE",
            TextEncoding::ShiftJis => "Shift_JIS",
        }
    }

    /// The byte-order mark that a file in the encoding starts with.
    pub fn bom(self) -> (mark: &'static [u8])
        ensures
            mark@ == bom_of(self),
    {
        match self {
            TextEncoding::Utf8 => &[],
            TextEncoding::Utf16Le => &[0xFF, 0xFE],
            TextEncoding::Utf16Be => &[0xFE, 0xFF],
            TextEncoding::ShiftJis => &[],
        }
    }

    /// The encoding that follows this one when the user cycles through
    /// them.
    pub fn next(self) -> (following: TextEncoding)
        ensures
            following == successor_of(self),
    {
        match self {
            TextEncoding::Utf8 => TextEncoding::Utf16Le,
            TextEncoding::Utf16Le => TextEncoding::Utf16Be,
            TextEncoding::Utf16Be => TextEncoding::ShiftJis,
            TextEncoding::ShiftJis => TextEncoding::Utf8,
        }
    }
}

/// `encoding_rs::Encoding`, made known to Verus as a type whose inside it
/// does not see.
#[verifier::external_type_specification]
#[verifier::external_body]
pub struct ExEncoding(encoding_rs::Encoding);

/// Which of the editor's encodings a codec of `encoding_rs` is, if any.
pub uninterp spec fn encoding_kind(encoding: &Encoding) -> Option<TextEncoding>;

/// What decoding gives for bytes that are not plainly the bytes of a text in
/// UTF-8 or UTF-16: malformed sequences are replaced, a byte-order mark in
/// front is honoured and dropped, and Shift_JIS is decoded as the WHATWG
/// Encoding Standard lays down.
pub uninterp spec fn lossy_decoded(encoding: TextEncoding, bytes: Seq<u8>) -> Seq<char>;

/// The Shift_JIS bytes of a text that is not plain ASCII, with each character
/// that Shift_JIS lacks written as a numeric character reference.
pub uninterp spec fn shift_jis_encoded(text: Seq<char>) -> Seq<u8>;

/// The byte-order mark at the start of `bytes`, as the encoding it announces
/// and its length, if there is one.
pub open spec fn bom_at_start(bytes: Seq<u8>) -> Option<(TextEncoding, usize)> {
    if bytes.len() >= 3 && bytes[0] == 0xEF && bytes[1] == 0xBB && bytes[2] == 0xBF {
        Some((TextEncoding::Utf8, 3usize))
    } else if bytes.len() >= 2 && bytes[0] == 0xFF && bytes[1] == 0xFE {
        Some((TextEncoding::Utf16Le, 2usize))
    } else if bytes.len() >= 2 && bytes[0] == 0xFE && bytes[1] == 0xFF {
        Some((TextEncoding::Utf16Be, 2usize))
    } else {
        None
    }
}

/// The text that `bytes` decode to in `encoding`, where `otherwise` is what
/// the general decoder makes of them. No bytes give no text. Bytes that do
/// not begin with a byte-order mark give the characters they encode where
/// they are valid UTF-8 read as UTF-8, or the UTF-16 bytes of a text read as
/// UTF-16 in their byte order.
pub open spec fn decoded_or(encoding: TextEncoding, bytes: Seq<u8>, otherwise: Seq<char>) -> Seq<
    char,
> {
    if bytes.len() == 0 {
        Seq::empty()
    } else if bom_at_start(bytes).is_some() {
        otherwise
    } else if encoding == TextEncoding::Utf8 && valid_utf8(bytes) {
        decode_utf8(bytes)
    } else if encoding == TextEncoding::Utf16Le && is_utf16(bytes, false) {
        utf16_text(bytes, false)
    } else if encoding == TextEncoding::Utf16Be && is_utf16(bytes, true) {
        utf16_text(bytes, true)
    } else {
        otherwise
    }
}

/// The text that `bytes` decode to in `encoding`.
pub open spec fn decoded(encoding: TextEncoding, bytes: Seq<u8>) -> Seq<char> {
    decoded_or(encoding, bytes, lossy_decoded(encoding, bytes))
}

/// The bytes that `text` is written as in `encoding`, without a byte-order
/// mark, where `otherwise` is what the Shift_JIS encoder makes of text that
/// is not plain ASCII. Shift_JIS writes ASCII text as it stands.
pub open spec fn payload_or(encoding: TextEncoding, text: Seq<char>, otherwise: Seq<u8>) -> Seq<
    u8,
> {
    match encoding {
        TextEncoding::Utf8 => encode_utf8(text),
        TextEncoding::Utf16Le => utf16_bytes(text, false),
        TextEncoding::Utf16Be => utf16_bytes(text, true),
        TextEncoding::ShiftJis => if is_ascii_chars(text) {
            encode_utf8(text)
        } else {
            otherwise
        },
    }
}

/// The bytes that `text` is written as in `encoding`, without a byte-order
/// mark.
pub open spec fn payload_of(encoding: TextEncoding, text: Seq<char>) -> Seq<u8> {
    payload_or(encoding, text, shift_jis_encoded(text))
}

/// The bytes of a file that holds `text` in `encoding`: the encoding's
/// byte-order mark, then the text's bytes.
pub open spec fn encoded(text: Seq<char>, encoding: TextEncoding) -> Seq<u8> {
    bom_of(encoding) + payload_of(encoding, text)
}

/// The encoding that a file with the content `bytes` is read in: the one that
/// its byte-order mark announces, or UTF-8 where it has none.
pub open spec fn detected_encoding(bytes: Seq<u8>) -> TextEncoding {
    match bom_at_start(bytes) {
        Some((kind, _)) => kind,
        None => TextEncoding::Utf8,
    }
}

/// The bytes of a file behind its byte-order mark.
pub open spec fn payload_after_bom(bytes: Seq<u8>) -> Seq<u8> {
    match bom_at_start(bytes) {
        Some((_, len)) => bytes.skip(len as int),
        None => bytes,
    }
}

/// The text of a file with the content `bytes`.
pub open spec fn loaded_text(bytes: Seq<u8>) -> Seq<char> {
    decoded(detected_encoding(bytes), payload_after_bom(bytes))
}

/// The most bytes that the codec is asked to take at once, so that the sizes
/// it computes for its buffers fit the machine's integers.
pub open spec fn codec_limit() -> nat {
    (usize::MAX / 16) as nat
}

impl TextEncoding {
    /// The codec of `encoding_rs` for this encoding. The contract is believed:
    /// it names the codec that the body picks.
    #[verifier::external_body]
    pub fn encoding(self) -> (outside: &'static Encoding)
        ensures
            encoding_kind(outside) == Some(self),
    {
        match self {
            TextEncoding::Utf8 => encoding_rs::UTF_8,
            TextEncoding::Utf16Le => encoding_rs::UTF_16LE,
            TextEncoding::Utf16Be => encoding_rs::UTF_16BE,
            TextEncoding::ShiftJis => encoding_rs::SHIFT_JIS,
        }
    }

    /// The editor's encoding that a codec of `encoding_rs` stands for, if it
    /// is one of the four. The contract is believed: the body compares the
    /// codec with each of the four.
    #[verifier::external_body]
    pub fn from_encoding(encoding: &'static Encoding) -> (kind: Option<TextEncoding>)
        ensures
            kind == encoding_kind(encoding),
    {
        if encoding == encoding_rs::UTF_8 {
            Some(TextEncoding::Utf8)
        } else if encoding == encoding_rs::UTF_16LE {
            Some(TextEncoding::Utf16Le)
        } else if encoding == encoding_rs::UTF_16BE {
            Some(TextEncoding::Utf16Be)
        } else if encoding == encoding_rs::SHIFT_JIS {
            Some(TextEncoding::ShiftJis)
        } else {
            None
        }
    }
}

/// `Encoding::for_bom`: the codec that a byte-order mark at the start of
/// `bytes` announces, with the mark's length: three bytes for UTF-8, two for
/// either UTF-16; nothing where no mark stands there.
#[verifier::external_body]
pub(crate) fn for_bom(bytes: &[u8]) -> (found: Option<(&'static Encoding, usize)>)
    ensures
        match bom_at_start(bytes@) {
            Some((kind, len)) => found matches Some((outside, n)) && encoding_kind(outside) == Some(
                kind,
            ) && n == len,
            None => found.is_none(),
        },
{
    Encoding::for_bom(bytes)
}

/// `Encoding::decode`: the text that `bytes` decode to. The method looks for
/// a byte-order mark of its own accord. Where it finds none, valid UTF-8 read
/// as UTF-8 and the UTF-16 bytes of a text read as UTF-16 in their byte
/// order give the text they encode; of every other input only the name of
/// the result is known. The method panics where the size of its buffer
/// cannot be computed, which the limit on the input's length rules out.
#[verifier::external_body]
pub(crate) fn decode(encoding: &'static Encoding, bytes: &[u8]) -> (text: String)
    requires
        encoding_kind(encoding).is_some(),
        bytes@.len() < codec_limit(),
    ensures
        text@ == decoded_or(
            encoding_kind(encoding).unwrap(),
            bytes@,
            lossy_decoded(encoding_kind(encoding).unwrap(), bytes@),
        ),
{
    let (text, _, _) = encoding.decode(bytes);
    text.into_owned()
}

/// `Encoding::encode` on the codec of UTF-8 or of Shift_JIS: the bytes that
/// `text` is written as. UTF-8 hands the text's own bytes back. For
/// Shift_JIS the method panics where the size of its buffer cannot be
/// computed, which the limit on the text's length rules out. The method has
/// no encoder for UTF-16, so it is not asked for one.
#[verifier::external_body]
pub(crate) fn encode(encoding: &'static Encoding, text: &str) -> (bytes: Vec<u8>)
    requires
        encoding_kind(encoding) == Some(TextEncoding::Utf8) || encoding_kind(encoding) == Some(
            TextEncoding::ShiftJis,
        ),
        encoding_kind(encoding) == Some(TextEncoding::ShiftJis) ==> encode_utf8(text@).len()
            < codec_limit(),
    ensures
        bytes@ == payload_or(encoding_kind(encoding).unwrap(), text@, shift_jis_encoded(text@)),
{
    let (bytes, _, _) = encoding.encode(text);
    bytes.into_owned()
}

} // verus!
