//! Text and its bytes: reading bytes as UTF-8, and comparing texts.

use vstd::prelude::*;
use vstd::utf8::*;
use crate::paths::{ascii, same_bytes};

verus! {

/// An ASCII text is encoded byte for character.
pub proof fn lemma_ascii_is_encoding(text: Seq<char>)
    requires
        is_ascii_chars(text),
    ensures
        ascii(text) == encode_utf8(text),
        valid_utf8(ascii(text)),
        decode_utf8(ascii(text)) == text,
{
    is_ascii_chars_encode_utf8(text);
    assert(ascii(text) =~= encode_utf8(text));
    encode_utf8_valid_utf8(text);
    encode_utf8_decode_utf8(text);
}

/// Two texts with the same encoding are the same text.
pub proof fn lemma_encoding_is_injective(a: Seq<char>, b: Seq<char>)
    requires
        encode_utf8(a) == encode_utf8(b),
    ensures
        a == b,
{
    encode_utf8_decode_utf8(a);
    encode_utf8_decode_utf8(b);
}

/// Whether two texts are the same.
pub fn same_text(a: &str, b: &str) -> (same: bool)
    ensures
        same == (a@ == b@),
{
    let same = same_bytes(a.as_bytes(), b.as_bytes());
    proof {
        if same {
            lemma_encoding_is_injective(a@, b@);
        }
    }
    same
}

/// Reads `bytes` as text, through `core::str::from_utf8`: there is a text
/// exactly where the bytes are well-formed UTF-8, and it is the text that
/// they encode.
#[verifier::external_body]
pub(crate) fn text_of(bytes: &[u8]) -> (text: Option<&str>)
    ensures
        text is Some <==> valid_utf8(bytes@),
        text is Some ==> text->0@ == decode_utf8(bytes@),
{
    core::str::from_utf8(bytes).ok()
}

} // verus!
