//! Unsigned 32-bit integers as decimal text, both ways.

use vstd::prelude::*;
use crate::ascii::{is_digit, DIGIT_0, DIGIT_9, PLUS};

verus! {

/// The decimal digits of `n`, most significant first and without leading
/// zeros; zero is written `0`.
pub open spec fn decimal(n: nat) -> Seq<u8>
    decreases n,
{
    if n < 10 {
        seq![(DIGIT_0 + n) as u8]
    } else {
        decimal(n / 10).push((DIGIT_0 + n % 10) as u8)
    }
}

/// Whether every byte is a decimal digit.
pub open spec fn all_digits(s: Seq<u8>) -> bool {
    forall|i: int| 0 <= i < s.len() ==> is_digit(#[trigger] s[i])
}

/// The number that a sequence of digits denotes in base ten. The empty
/// sequence denotes zero.
pub open spec fn digits_value(s: Seq<u8>) -> nat
    decreases s.len(),
{
    if s.len() == 0 {
        0
    } else {
        digits_value(s.drop_last()) * 10 + (s.last() - DIGIT_0) as nat
    }
}

/// The text without the plus sign that may stand in front of the digits.
pub open spec fn unsigned_part(s: Seq<u8>) -> Seq<u8> {
    if s.len() > 0 && s[0] == PLUS {
        s.skip(1)
    } else {
        s
    }
}

/// Whether the text denotes an unsigned 32-bit integer: an optional plus
/// sign, then one or more decimal digits, whose value fits in 32 bits.
/// Leading zeros are allowed; spaces, a minus sign and digit separators are
/// not.
pub open spec fn is_u32_text(s: Seq<u8>) -> bool {
    let digits = unsigned_part(s);
    &&& digits.len() > 0
    &&& all_digits(digits)
    &&& digits_value(digits) <= u32::MAX
}

/// The integer that the text denotes, if it denotes one.
pub open spec fn u32_of_text(s: Seq<u8>) -> Option<u32> {
    if is_u32_text(s) {
        Some(digits_value(unsigned_part(s)) as u32)
    } else {
        None
    }
}

/// A sequence of digits denotes at least what any of its prefixes denotes.
proof fn lemma_prefix_value(s: Seq<u8>, i: int)
    requires
        all_digits(s),
        0 <= i <= s.len(),
    ensures
        digits_value(s.take(i)) <= digits_value(s),
    decreases s.len(),
{
    if i == s.len() {
        assert(s.take(i) =~= s);
    } else {
        let front = s.drop_last();
        assert(front.take(i) =~= s.take(i));
        assert(all_digits(front)) by {
            assert forall|j: int| 0 <= j < front.len() implies is_digit(#[trigger] front[j]) by {
                assert(front[j] == s[j]);
            }
        }
        lemma_prefix_value(front, i);
    }
}

/// The decimal digits of a number are digits, at least one, and denote the
/// number.
pub proof fn lemma_decimal_denotes(n: nat)
    ensures
        decimal(n).len() > 0,
        all_digits(decimal(n)),
        digits_value(decimal(n)) == n,
    decreases n,
{
    let text = decimal(n);
    if n < 10 {
        assert(text.drop_last() =~= Seq::<u8>::empty());
        assert(digits_value(text.drop_last()) == 0);
    } else {
        lemma_decimal_denotes(n / 10);
        assert(text.drop_last() =~= decimal(n / 10));
        assert(text.last() == (DIGIT_0 + n % 10) as u8);
        assert forall|i: int| 0 <= i < text.len() implies is_digit(#[trigger] text[i]) by {
            if i < text.len() - 1 {
                assert(text[i] == decimal(n / 10)[i]);
            }
        }
    }
}

/// Writing a number and reading the text again gives the number back.
pub proof fn lemma_decimal_round_trip(n: u32)
    ensures
        u32_of_text(decimal(n as nat)) == Some(n),
{
    let text = decimal(n as nat);
    lemma_decimal_denotes(n as nat);
    assert(is_digit(text[0]));
    assert(unsigned_part(text) == text);
}

/// Appends the decimal digits of `n` to `out`.
pub fn push_decimal(out: &mut Vec<u8>, n: u32)
    ensures
        final(out)@ == old(out)@ + decimal(n as nat),
    decreases n,
{
    if n >= 10 {
        push_decimal(out, n / 10);
    }
    out.push(DIGIT_0 + (n % 10) as u8);
    assert(out@ =~= old(out)@ + decimal(n as nat));
}

/// Reads an unsigned 32-bit integer from decimal text.
///
/// Gives the integer exactly where the text denotes one, and `None` on every
/// other text: the empty one, one with a byte that is no digit, one whose
/// value does not fit.
pub fn parse_u32(text: &[u8]) -> (r: Option<u32>)
    ensures
        r == u32_of_text(text@),
{
    let start: usize = if text.len() > 0 && text[0] == PLUS {
        1
    } else {
        0
    };
    if start == text.len() {
        return None;
    }
    let ghost digits = unsigned_part(text@);
    assert(digits =~= text@.skip(start as int));
    let mut value: u32 = 0;
    let mut i: usize = start;
    while i < text.len()
        invariant
            start <= i <= text@.len(),
            digits == text@.skip(start as int),
            digits == unsigned_part(text@),
            digits.len() > 0,
            all_digits(digits.take(i - start)),
            value == digits_value(digits.take(i - start)),
        decreases text@.len() - i,
    {
        let b = text[i];
        let ghost seen = digits.take(i - start + 1);
        assert(seen.drop_last() =~= digits.take(i - start));
        assert(seen.last() == b);
        if b < DIGIT_0 || b > DIGIT_9 {
            assert(!is_digit(digits[i - start]));
            return None;
        }
        let digit: u32 = (b - DIGIT_0) as u32;
        if value > (u32::MAX - digit) / 10 {
            proof {
                assert(digits_value(seen) > u32::MAX);
                if all_digits(digits) {
                    lemma_prefix_value(digits, i - start + 1);
                }
            }
            return None;
        }
        value = value * 10 + digit;
        assert(all_digits(seen)) by {
            assert forall|j: int| 0 <= j < seen.len() implies is_digit(#[trigger] seen[j]) by {
                if j < seen.len() - 1 {
                    assert(seen[j] == digits.take(i - start)[j]);
                }
            }
        }
        i += 1;
    }
    assert(digits.take(i - start) =~= digits);
    Some(value)
}

} // verus!
