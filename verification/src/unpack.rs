//! Reading a text from the front of a payload.

use crate::wire::{get_text, lemma_text_at, text_at, text_encoding};
use vstd::prelude::*;
use vstd::slice::*;
use vstd::utf8::*;

verus! {

/// The text at the front of `data`, and what follows it.
///
/// A text is stored as its length in bytes, in four bytes, little-endian,
/// followed by its UTF-8 form. There is no text at the front of `data` where
/// `data` is too short for the length or for the bytes that the length
/// announces, or where those bytes are not UTF-8.
pub open spec fn spec_unpack_string(data: Seq<u8>) -> Option<(Seq<char>, Seq<u8>)> {
    match text_at(data, 0) {
        Some((text, next)) => Some((text, data.subrange(next, data.len() as int))),
        None => None,
    }
}

/// Whatever is unpacked from `data` makes up `data` again: a text and a rest
/// are unpacked exactly from the stored form of the text followed by the rest.
pub proof fn lemma_unpack_string(data: Seq<u8>, text: Seq<char>, rest: Seq<u8>)
    ensures
        spec_unpack_string(data) == Some((text, rest)) <==> encode_utf8(text).len() <= u32::MAX
            && data == text_encoding(text) + rest,
{
    lemma_text_at(data, 0, text);
    let piece = text_encoding(text);
    if spec_unpack_string(data) == Some((text, rest)) {
        assert(data =~= piece + rest);
    }
    if encode_utf8(text).len() <= u32::MAX && data == piece + rest {
        assert(data.subrange(0, piece.len() as int) =~= piece);
        assert(data.subrange(piece.len() as int, data.len() as int) =~= rest);
    }
}

/// Reads the text at the front of `data` and gives it with what follows it.
pub fn unpack_string(data: &[u8]) -> (unpacked: Option<(String, &[u8])>)
    ensures
        match unpacked {
            Some((text, rest)) => spec_unpack_string(data@) == Some((text@, rest@)),
            None => spec_unpack_string(data@) is None,
        },
        unpacked matches Some((text, rest)) ==> data@ == text_encoding(text@) + rest@,
{
    match get_text(data, 0) {
        Some((text, next)) => {
            proof {
                lemma_text_at(data@, 0, text@);
            }
            let rest = slice_subrange(data, next, data.len());
            proof {
                lemma_unpack_string(data@, text@, rest@);
            }
            return Some((text, rest));
        },
        None => return None,
    }
}

} // verus!
