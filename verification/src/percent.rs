//! Percent-decoding of path segments.

use vstd::prelude::*;
use crate::ascii::{is_digit, DIGIT_0, DIGIT_9, LOWER_A, LOWER_F, PERCENT, UPPER_A, UPPER_F};

verus! {

/// Whether the byte is a hexadecimal digit, in either case.
pub open spec fn is_hex(b: u8) -> bool {
    is_digit(b) || UPPER_A <= b <= UPPER_F || LOWER_A <= b <= LOWER_F
}

/// The value of a hexadecimal digit.
pub open spec fn hex_value(b: u8) -> int {
    if is_digit(b) {
        b - DIGIT_0
    } else if UPPER_A <= b <= UPPER_F {
        b - UPPER_A + 10
    } else {
        b - LOWER_A + 10
    }
}

/// Whether the text begins with an escape: a percent sign and two
/// hexadecimal digits.
pub open spec fn starts_with_escape(s: Seq<u8>) -> bool {
    s.len() >= 3 && s[0] == PERCENT && is_hex(s[1]) && is_hex(s[2])
}

/// The text with every escape replaced by the byte that it names.
///
/// The text is read from the left. A percent sign that no two hexadecimal
/// digits follow is no escape and stands for itself, as does every other
/// byte. What an escape gives is not read again.
pub open spec fn percent_decode(s: Seq<u8>) -> Seq<u8>
    decreases s.len(),
{
    if s.len() == 0 {
        Seq::empty()
    } else if starts_with_escape(s) {
        seq![(hex_value(s[1]) * 16 + hex_value(s[2])) as u8] + percent_decode(s.skip(3))
    } else {
        seq![s[0]] + percent_decode(s.skip(1))
    }
}

/// Decoding never makes a text longer.
pub proof fn lemma_decode_shortens(s: Seq<u8>)
    ensures
        percent_decode(s).len() <= s.len(),
    decreases s.len(),
{
    if s.len() == 0 {
    } else if starts_with_escape(s) {
        lemma_decode_shortens(s.skip(3));
    } else {
        lemma_decode_shortens(s.skip(1));
    }
}

/// A text without a percent sign is its own decoding.
pub proof fn lemma_decode_plain(s: Seq<u8>)
    requires
        forall|i: int| 0 <= i < s.len() ==> s[i] != PERCENT,
    ensures
        percent_decode(s) == s,
    decreases s.len(),
{
    if s.len() > 0 {
        let rest = s.skip(1);
        assert forall|i: int| 0 <= i < rest.len() implies rest[i] != PERCENT by {
            assert(rest[i] == s[i + 1]);
        }
        lemma_decode_plain(rest);
        assert(seq![s[0]] + rest =~= s);
    }
}

fn hex_value_of(b: u8) -> (v: Option<u8>)
    ensures
        is_hex(b) <==> v is Some,
        v matches Some(n) ==> n == hex_value(b) && n < 16,
{
    if DIGIT_0 <= b && b <= DIGIT_9 {
        Some(b - DIGIT_0)
    } else if UPPER_A <= b && b <= UPPER_F {
        Some(b - UPPER_A + 10)
    } else if LOWER_A <= b && b <= LOWER_F {
        Some(b - LOWER_A + 10)
    } else {
        None
    }
}

/// The byte that the escape at position `i` names, if there is an escape
/// at that position.
fn escape_at(s: &[u8], i: usize) -> (r: Option<u8>)
    requires
        i < s@.len(),
    ensures
        starts_with_escape(s@.skip(i as int)) <==> r is Some,
        r matches Some(b) ==> b == hex_value(s@[i + 1]) * 16 + hex_value(s@[i + 2]),
{
    let ghost rest = s@.skip(i as int);
    assert(rest[0] == s@[i as int]);
    if s[i] != PERCENT || s.len() - i < 3 {
        return None;
    }
    assert(rest[1] == s@[i + 1] && rest[2] == s@[i + 2]);
    match (hex_value_of(s[i + 1]), hex_value_of(s[i + 2])) {
        (Some(high), Some(low)) => Some(high * 16 + low),
        _ => None,
    }
}

/// Decodes the escapes of a path segment.
pub fn decode(s: &[u8]) -> (out: Vec<u8>)
    ensures
        out@ == percent_decode(s@),
{
    let mut out: Vec<u8> = Vec::with_capacity(s.len());
    let mut i: usize = 0;
    assert(s@.skip(0) =~= s@);
    assert(out@ + percent_decode(s@) =~= percent_decode(s@));
    while i < s.len()
        invariant
            i <= s@.len(),
            out@ + percent_decode(s@.skip(i as int)) == percent_decode(s@),
        decreases s@.len() - i,
    {
        let ghost rest = s@.skip(i as int);
        let ghost before = out@;
        match escape_at(s, i) {
            Some(b) => {
                out.push(b);
                proof {
                    assert(rest[1] == s@[i + 1] && rest[2] == s@[i + 2]);
                    assert(rest.skip(3) =~= s@.skip(i + 3));
                    assert(out@ + percent_decode(s@.skip(i + 3)) =~= before + percent_decode(
                        rest,
                    ));
                }
                i += 3;
            },
            None => {
                out.push(s[i]);
                proof {
                    assert(rest[0] == s@[i as int]);
                    assert(rest.skip(1) =~= s@.skip(i + 1));
                    assert(out@ + percent_decode(s@.skip(i + 1)) =~= before + percent_decode(
                        rest,
                    ));
                }
                i += 1;
            },
        }
    }
    assert(out@ + Seq::<u8>::empty() =~= out@);
    out
}

} // verus!
