//! String parameters: the text that a path segment stands for.

use vstd::prelude::*;
use vstd::utf8::{decode_utf8, encode_utf8, valid_utf8};
use crate::percent::{decode, percent_decode};

verus! {

/// The text that `String::from_utf8_lossy` makes of the bytes: the text
/// that they encode where they are UTF-8, and otherwise that text with a
/// replacement character wherever the bytes are malformed.
pub uninterp spec fn utf8_lossy(bytes: Seq<u8>) -> Seq<char>;

/// Calls `String::from_utf8_lossy` of the standard library and takes the
/// result as an owned string.
///
/// Trusted, not proved: that the result depends on the bytes alone, and
/// that bytes which are valid UTF-8 give the text that they encode. What
/// malformed bytes give is left to the standard library.
#[verifier::external_body]
fn string_from_utf8_lossy(bytes: &[u8]) -> (text: String)
    ensures
        text@ == utf8_lossy(bytes@),
        valid_utf8(bytes@) ==> text@ == decode_utf8(bytes@),
{
    String::from_utf8_lossy(bytes).into_owned()
}

/// The text that a path segment stands for: its escapes are decoded, and
/// the bytes that result are read as UTF-8, leniently.
pub open spec fn decoded_text(segment: Seq<u8>) -> Seq<char> {
    utf8_lossy(percent_decode(segment))
}

/// Whether the text of the segment is exactly what its decoded bytes say:
/// where they are valid UTF-8, the text is the one that they encode, and
/// the UTF-8 bytes of the text are the decoded bytes again.
///
/// This holds of every segment; the functions that read a segment as text
/// say so of the segments that they have read.
pub open spec fn reads_exactly(segment: Seq<u8>) -> bool {
    valid_utf8(percent_decode(segment)) ==> {
        &&& decoded_text(segment) == decode_utf8(percent_decode(segment))
        &&& encode_utf8(decoded_text(segment)) == percent_decode(segment)
    }
}

/// Reads a path segment as text.
pub fn decode_text(segment: &[u8]) -> (text: String)
    ensures
        text@ == decoded_text(segment@),
        reads_exactly(segment@),
{
    let bytes = decode(segment);
    let text = string_from_utf8_lossy(bytes.as_slice());
    proof {
        if valid_utf8(bytes@) {
            vstd::utf8::decode_utf8_encode_utf8(bytes@);
        }
    }
    text
}

} // verus!
