//! Booleans as text.

use vstd::prelude::*;
use vstd::string::*;
use crate::ascii::same_bytes;

verus! {

/// The boolean that the text denotes: `true` and `false`, in lower case and
/// with nothing around them, denote one; no other text does.
pub open spec fn bool_of_text(s: Seq<u8>) -> Option<bool> {
    if s == "true".spec_bytes() {
        Some(true)
    } else if s == "false".spec_bytes() {
        Some(false)
    } else {
        None
    }
}

/// Reads a boolean from text.
pub fn parse_bool(text: &[u8]) -> (r: Option<bool>)
    ensures
        r == bool_of_text(text@),
{
    if same_bytes(text, "true".as_bytes()) {
        Some(true)
    } else if same_bytes(text, "false".as_bytes()) {
        Some(false)
    } else {
        None
    }
}

} // verus!
