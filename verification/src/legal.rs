//! Which chat messages the Minecraft server accepts.

use vstd::prelude::*;
use crate::text::utf8_len;

verus! {

/// The longest message, in UTF-8 bytes, that the server accepts.
pub const MAX_MESSAGE_BYTES: usize = 256;

/// A character that gets the sender kicked: an ASCII control character,
/// delete, or the section sign that starts a formatting code.
pub open spec fn is_illegal_char(c: char) -> bool {
    c as u32 <= 0x1F || c == '\x7F' || c == '\u{A7}'
}

/// A text is legal when it fits the length limit and holds no illegal
/// character. The empty text is legal.
pub open spec fn legal_to_minecraft(text: Seq<char>) -> bool {
    &&& utf8_len(text) <= MAX_MESSAGE_BYTES
    &&& forall|i: int| 0 <= i < text.len() ==> !is_illegal_char(#[trigger] text[i])
}

/// Whether this message can be sent to Minecraft without the server kicking
/// us.
pub fn message_legal_to_minecraft(message: &str) -> (legal: bool)
    ensures
        legal == legal_to_minecraft(message@),
{
    if message.as_bytes().len() > MAX_MESSAGE_BYTES {
        return false;
    }
    let chars = message.chars();
    for c in it: chars
        invariant
            it.seq() == message@,
            utf8_len(message@) <= MAX_MESSAGE_BYTES,
            forall|i: int| 0 <= i < it.index() ==> !is_illegal_char(#[trigger] message@[i]),
    {
        assert(c == message@[it.index()]);
        if c as u32 <= 0x1F || c == '\x7F' || c == '\u{A7}' {
            return false;
        }
    }
    true
}

} // verus!
