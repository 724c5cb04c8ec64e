//! Text made of ASCII bytes, and how its characters relate to its UTF-8 bytes.

use vstd::prelude::*;
use vstd::utf8::*;

verus! {

/// Whether every byte is an ASCII code.
pub open spec fn is_ascii_bytes(b: Seq<u8>) -> bool {
    forall|i: int| 0 <= i < b.len() ==> #[trigger] b[i] < 128
}

/// The characters of a text whose bytes are the ASCII codes `b`.
pub open spec fn ascii_text(b: Seq<u8>) -> Seq<char> {
    Seq::new(b.len(), |i: int| b[i] as char)
}

/// The UTF-8 bytes of the text made of ASCII codes are those codes.
pub proof fn lemma_ascii_text_bytes(b: Seq<u8>)
    requires
        is_ascii_bytes(b),
    ensures
        encode_utf8(ascii_text(b)) == b,
{
    let chars = ascii_text(b);
    assert(is_ascii_chars(chars)) by {
        assert forall|i: int| 0 <= i < chars.len() implies '\0' <= #[trigger] chars[i] <= '\u{7f}' by {
            assert(b[i] < 128);
        }
    }
    is_ascii_chars_encode_utf8(chars);
    assert forall|i: int| 0 <= i < b.len() implies #[trigger] encode_utf8(chars)[i] == b[i] by {
        assert(chars[i] as u8 == encode_utf8(chars)[i]);
        assert(chars[i] == b[i] as char);
    }
    assert(encode_utf8(chars) =~= b);
}

} // verus!
