//! The legality of a message, told by the bytes that go over the wire.

use vstd::prelude::*;
use vstd::utf8::{encode_scalar, encode_utf8};
use crate::legal::{is_illegal_char, legal_to_minecraft, MAX_MESSAGE_BYTES};

verus! {

/// An ASCII control byte or the delete byte.
pub open spec fn is_control_byte(byte: u8) -> bool {
    byte <= 0x1F || byte == 0x7F
}

/// Whether one of the bytes is a control byte.
pub open spec fn has_control_byte(bytes: Seq<u8>) -> bool {
    exists|i: int| 0 <= i < bytes.len() && is_control_byte(#[trigger] bytes[i])
}

/// An ASCII control character or delete.
pub open spec fn is_control_char(c: char) -> bool {
    c as u32 <= 0x1F || c == '\x7F'
}

/// Whether one of the characters is a control character.
pub open spec fn has_control_char(text: Seq<char>) -> bool {
    exists|i: int| 0 <= i < text.len() && is_control_char(#[trigger] text[i])
}

/// The encoding of a character holds a control byte just when the character
/// is a control character: a character above 0x7F is encoded in bytes from
/// 0x80 on.
pub proof fn lemma_control_byte_of_char(c: char)
    ensures
        has_control_byte(encode_scalar(c as u32)) <==> is_control_char(c),
{
    let v = c as u32;
    let bytes = encode_scalar(v);
    vstd::utf8::char_is_scalar(c);
    assert(v <= 0x7F ==> ((v & 0x7F) as u8) as u32 == v) by (bit_vector);
    assert((0xC0u8 | ((v >> 6) & 0x1F) as u8) >= 0x80u8) by (bit_vector);
    assert((0xE0u8 | ((v >> 12) & 0x0F) as u8) >= 0x80u8) by (bit_vector);
    assert((0xF0u8 | ((v >> 18) & 0x7) as u8) >= 0x80u8) by (bit_vector);
    assert((0x80u8 | (v & 0x3F) as u8) >= 0x80u8) by (bit_vector);
    assert((0x80u8 | ((v >> 6) & 0x3F) as u8) >= 0x80u8) by (bit_vector);
    assert((0x80u8 | ((v >> 12) & 0x3F) as u8) >= 0x80u8) by (bit_vector);
    if v <= 0x7F {
        assert(bytes.len() == 1);
        assert(bytes[0] as u32 == v);
        if is_control_char(c) {
            assert(is_control_byte(bytes[0]));
        }
    } else {
        assert forall|i: int| 0 <= i < bytes.len() implies !is_control_byte(#[trigger] bytes[i]) by {}
    }
}

/// A concatenation holds a control byte just when one of its parts does.
pub proof fn lemma_control_byte_concat(a: Seq<u8>, b: Seq<u8>)
    ensures
        has_control_byte(a + b) <==> has_control_byte(a) || has_control_byte(b),
{
    if has_control_byte(a) {
        let i = choose|i: int| 0 <= i < a.len() && is_control_byte(#[trigger] a[i]);
        assert((a + b)[i] == a[i]);
    }
    if has_control_byte(b) {
        let i = choose|i: int| 0 <= i < b.len() && is_control_byte(#[trigger] b[i]);
        assert((a + b)[a.len() + i] == b[i]);
    }
    if has_control_byte(a + b) {
        let i = choose|i: int| 0 <= i < (a + b).len() && is_control_byte(#[trigger] (a + b)[i]);
        if i < a.len() {
            assert(a[i] == (a + b)[i]);
        } else {
            assert(b[i - a.len()] == (a + b)[i]);
        }
    }
}

/// The encoding of a text holds a control byte just when the text holds a
/// control character.
pub proof fn lemma_control_bytes_of_text(text: Seq<char>)
    ensures
        has_control_byte(encode_utf8(text)) <==> has_control_char(text),
    decreases text.len(),
{
    if text.len() > 0 {
        let rest = text.drop_first();
        lemma_control_bytes_of_text(rest);
        lemma_control_byte_of_char(text[0]);
        lemma_control_byte_concat(encode_scalar(text[0] as u32), encode_utf8(rest));
        if has_control_char(rest) {
            let i = choose|i: int| 0 <= i < rest.len() && is_control_char(#[trigger] rest[i]);
            assert(text[i + 1] == rest[i]);
        }
        if has_control_char(text) {
            let i = choose|i: int| 0 <= i < text.len() && is_control_char(#[trigger] text[i]);
            if i > 0 {
                assert(rest[i - 1] == text[i]);
            }
        }
    }
}

/// A message is refused in exactly three cases: its encoding is longer than
/// 256 bytes, its encoding holds a byte from 0x00 to 0x1F or the byte 0x7F,
/// or it holds the section sign. Every other message is accepted, the empty
/// one too.
pub proof fn law_legal_by_bytes(text: Seq<char>)
    ensures
        legal_to_minecraft(text) <==> {
            &&& encode_utf8(text).len() <= MAX_MESSAGE_BYTES
            &&& !has_control_byte(encode_utf8(text))
            &&& !text.contains('\u{A7}')
        },
        legal_to_minecraft(Seq::<char>::empty()),
{
    lemma_control_bytes_of_text(text);
    if has_control_char(text) {
        let i = choose|i: int| 0 <= i < text.len() && is_control_char(#[trigger] text[i]);
        assert(is_illegal_char(text[i]));
    }
    if text.contains('\u{A7}') {
        let i = choose|i: int| 0 <= i < text.len() && text[i] == '\u{A7}';
        assert(is_illegal_char(text[i]));
    }
    if !legal_to_minecraft(text) && encode_utf8(text).len() <= MAX_MESSAGE_BYTES {
        let i = choose|i: int| 0 <= i < text.len() && is_illegal_char(#[trigger] text[i]);
        if text[i] == '\u{A7}' {
            assert(text.contains('\u{A7}'));
        } else {
            assert(is_control_char(text[i]));
        }
    }
    assert(encode_utf8(Seq::<char>::empty()).len() == 0);
}

} // verus!
