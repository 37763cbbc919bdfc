//! The text of the interpreter's string objects: which of the layouts a header
//! announces, and the characters that the data bytes stand for.

use vstd::prelude::*;
use crate::bytes::{read_field, spec_le_value, FieldLayout};
use crate::layout::{StringHeader, StringLayout};

verus! {

/// What `char::from_u32` returns: the character with the given code, for every code
/// that is a Unicode scalar value, and `None` for every other number.
pub assume_specification[ char::from_u32 ](code: u32) -> (c: Option<char>)
    ensures
        c == spec_scalar(code as nat),
;

/// The character with the given code, where the code is a Unicode scalar value.
pub open spec fn spec_scalar(code: nat) -> Option<char> {
    if code < 0xD800 || (0xE000 <= code && code <= 0x10FFFF) {
        Some(code as char)
    } else {
        None
    }
}

/// The character shown for a code: the replacement character where the code is no
/// Unicode scalar value.
pub open spec fn spec_char_of(code: nat) -> char {
    match spec_scalar(code) {
        Some(c) => c,
        None => '\u{FFFD}',
    }
}

/// The width of a character that a state word announces.
pub open spec fn spec_kind(state: nat) -> nat {
    (state / 4) % 8
}

/// Whether a state word announces a compact string.
pub open spec fn spec_compact(state: nat) -> bool {
    (state / 32) % 2 == 1
}

/// Whether a state word announces plain text.
pub open spec fn spec_ascii(state: nat) -> bool {
    (state / 64) % 2 == 1
}

/// Where the characters of a string object start and how many bytes each takes.
#[derive(Clone, Copy, Debug, PartialEq, Eq, Structural)]
pub struct TextPlan {
    /// Offset of the first character from the start of the object.
    pub offset: usize,
    /// Bytes for each character: 1, 2 or 4.
    pub width: usize,
}

/// The plan that a header announces under a layout. A layout without a state word
/// keeps one byte for each character after the header. With a state word, only
/// compact strings of width 1, 2 or 4 are supported: plain text lies at the first
/// data offset, other text at the second.
pub open spec fn spec_text_plan(l: StringLayout, h: StringHeader) -> Option<TextPlan> {
    if !l.has_state {
        Some(TextPlan { offset: l.ascii_data, width: 1 })
    } else if !spec_compact(h.state as nat) {
        None
    } else if spec_kind(h.state as nat) == 1 {
        if spec_ascii(h.state as nat) {
            Some(TextPlan { offset: l.ascii_data, width: 1 })
        } else {
            Some(TextPlan { offset: l.unicode_data, width: 1 })
        }
    } else if spec_kind(h.state as nat) == 2 {
        Some(TextPlan { offset: l.unicode_data, width: 2 })
    } else if spec_kind(h.state as nat) == 4 {
        Some(TextPlan { offset: l.unicode_data, width: 4 })
    } else {
        None
    }
}

/// Works out where the characters of a string object are, or `None` where the
/// header announces a form that is not supported.
pub fn text_plan(l: &StringLayout, h: &StringHeader) -> (plan: Option<TextPlan>)
    ensures
        plan == spec_text_plan(*l, *h),
{
    if !l.has_state {
        return Some(TextPlan { offset: l.ascii_data, width: 1 });
    }
    let kind = (h.state / 4) % 8;
    let compact = (h.state / 32) % 2 == 1;
    let ascii = (h.state / 64) % 2 == 1;
    if !compact {
        None
    } else if kind == 1 {
        if ascii {
            Some(TextPlan { offset: l.ascii_data, width: 1 })
        } else {
            Some(TextPlan { offset: l.unicode_data, width: 1 })
        }
    } else if kind == 2 {
        Some(TextPlan { offset: l.unicode_data, width: 2 })
    } else if kind == 4 {
        Some(TextPlan { offset: l.unicode_data, width: 4 })
    } else {
        None
    }
}

/// The characters that data bytes stand for, `width` bytes to a character, least
/// significant byte first. Bytes left over at the end are not looked at, and a
/// width of zero or of more than eight bytes gives no characters.
pub open spec fn spec_decode_text(bytes: Seq<u8>, width: nat) -> Seq<char>
    decreases bytes.len(),
{
    if width == 0 || width > 8 || bytes.len() < width {
        Seq::empty()
    } else {
        seq![spec_char_of(spec_le_value(bytes.take(width as int)))] + spec_decode_text(
            bytes.skip(width as int),
            width,
        )
    }
}

/// Decodes data bytes into characters.
pub fn decode_text(bytes: &[u8], width: usize) -> (text: Vec<char>)
    ensures
        text@ == spec_decode_text(bytes@, width as nat),
{
    let mut text: Vec<char> = Vec::new();
    if width == 0 || width > 8 {
        return text;
    }
    let mut pos: usize = 0;
    let size: usize = bytes.len();
    assert(bytes@.skip(0) == bytes@);
    while size - pos >= width
        invariant
            pos <= size,
            size == bytes@.len(),
            1 <= width <= 8,
            spec_decode_text(bytes@, width as nat) == text@ + spec_decode_text(
                bytes@.skip(pos as int),
                width as nat,
            ),
        decreases size - pos,
    {
        let f = FieldLayout { offset: pos, width };
        let code = read_field(bytes, f);
        let ghost rest = bytes@.skip(pos as int);
        proof {
            assert(f.slice(bytes@) == rest.take(width as int));
            assert(rest.skip(width as int) == bytes@.skip(pos + width));
        }
        let c = if code > 0x10FFFF {
            '\u{FFFD}'
        } else {
            match char::from_u32(code as u32) {
                Some(c) => c,
                None => '\u{FFFD}',
            }
        };
        text.push(c);
        pos += width;
    }
    text
}

/// The text shown for a string that cannot be decoded.
pub fn unknown_text() -> (text: Vec<char>)
    ensures
        text@ == "<unknown>"@,
{
    crate::text::chars_of("<unknown>")
}

} // verus!
