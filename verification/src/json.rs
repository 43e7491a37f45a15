//! The one JSON document of the service: an object with the single field
//! `name`, and its canonical encoding.

use vstd::prelude::*;
use vstd::string::*;
use vstd::utf8::{
    encode_utf8, length_of_first_scalar, pop_first_scalar, take_first_scalar, valid_first_scalar,
    valid_utf8,
};
use crate::ascii::{
    BACKSLASH, BACKSPACE, CARRIAGE_RETURN, DIGIT_0, FORM_FEED, LINE_FEED, LOWER_A, LOWER_B,
    LOWER_F, LOWER_N, LOWER_R, LOWER_T, LOWER_U, QUOTE, SPACE, TAB,
};

verus! {

/// The object that the JSON route answers with.
#[derive(Clone, Debug, PartialEq, Eq)]
pub struct MyObj {
    pub name: String,
}

impl View for MyObj {
    type V = Seq<char>;

    /// An object is its name.
    open spec fn view(&self) -> Seq<char> {
        self.name@
    }
}

/// The lower-case hexadecimal digit for a value below 16.
pub open spec fn hex_digit(n: u8) -> u8 {
    if n < 10 {
        (DIGIT_0 + n) as u8
    } else {
        (LOWER_A + (n - 10)) as u8
    }
}

/// How one byte of a string stands inside a JSON string literal.
///
/// The quote and the backslash get a backslash in front. The control
/// characters that have a short escape use it, the others are written as
/// `\u00` and two hexadecimal digits. Every other byte stands for itself.
pub open spec fn escape_byte(b: u8) -> Seq<u8> {
    if b == QUOTE {
        seq![BACKSLASH, QUOTE]
    } else if b == BACKSLASH {
        seq![BACKSLASH, BACKSLASH]
    } else if b == BACKSPACE {
        seq![BACKSLASH, LOWER_B]
    } else if b == TAB {
        seq![BACKSLASH, LOWER_T]
    } else if b == LINE_FEED {
        seq![BACKSLASH, LOWER_N]
    } else if b == FORM_FEED {
        seq![BACKSLASH, LOWER_F]
    } else if b == CARRIAGE_RETURN {
        seq![BACKSLASH, LOWER_R]
    } else if b < SPACE {
        seq![BACKSLASH, LOWER_U, DIGIT_0, DIGIT_0, hex_digit(b / 16), hex_digit(b % 16)]
    } else {
        seq![b]
    }
}

/// The contents of the JSON string literal for the text with the UTF-8
/// bytes `s`: the escapes of the bytes, one after the other.
pub open spec fn escape(s: Seq<u8>) -> Seq<u8>
    decreases s.len(),
{
    if s.len() == 0 {
        Seq::empty()
    } else {
        escape(s.drop_last()) + escape_byte(s.last())
    }
}

/// The canonical encoding of the object with the given name, in UTF-8:
/// compact, the field name first, the escaped name between quotes.
pub open spec fn json_object(name: Seq<char>) -> Seq<u8> {
    "{\"name\":\"".spec_bytes() + escape(encode_utf8(name)) + "\"}".spec_bytes()
}

/// Whether the byte stands for itself in a JSON string literal.
pub open spec fn is_plain(b: u8) -> bool {
    b >= SPACE && b != QUOTE && b != BACKSLASH
}

/// A string of plain bytes is its own escape.
pub proof fn lemma_escape_plain(s: Seq<u8>)
    requires
        forall|i: int| 0 <= i < s.len() ==> is_plain(#[trigger] s[i]),
    ensures
        escape(s) == s,
    decreases s.len(),
{
    if s.len() > 0 {
        let front = s.drop_last();
        assert forall|i: int| 0 <= i < front.len() implies is_plain(#[trigger] front[i]) by {
            assert(front[i] == s[i]);
        }
        lemma_escape_plain(front);
        assert(is_plain(s[s.len() - 1]));
        assert(front + seq![s.last()] =~= s);
    } else {
        assert(escape(s) =~= s);
    }
}

/// An escaped string holds no control character, and no quote that could
/// end the literal early: a quote in it always follows a backslash.
pub proof fn lemma_escape_is_safe(s: Seq<u8>)
    ensures
        forall|i: int| 0 <= i < escape(s).len() ==> #[trigger] escape(s)[i] >= SPACE,
        forall|i: int|
            0 <= i < escape(s).len() && #[trigger] escape(s)[i] == QUOTE ==> i > 0 && escape(
                s,
            )[i - 1] == BACKSLASH,
    decreases s.len(),
{
    if s.len() > 0 {
        lemma_escape_is_safe(s.drop_last());
        let front = escape(s.drop_last());
        let tail = escape_byte(s.last());
        let all = escape(s);
        assert(all == front + tail);
        assert forall|i: int| 0 <= i < all.len() implies #[trigger] all[i] >= SPACE by {
            if i < front.len() {
                assert(all[i] == front[i]);
            } else {
                assert(all[i] == tail[i - front.len()]);
            }
        }
        assert forall|i: int| 0 <= i < all.len() && #[trigger] all[i] == QUOTE implies i > 0
            && all[i - 1] == BACKSLASH by {
            if i < front.len() {
                assert(all[i] == front[i]);
                assert(all[i - 1] == front[i - 1]);
            } else {
                let k = i - front.len();
                assert(all[i] == tail[k]);
                assert(k == 1 && tail[0] == BACKSLASH);
                assert(all[i - 1] == tail[0]);
            }
        }
    }
}

/// The escape of two texts in a row is the escape of the one, then that of
/// the other.
proof fn lemma_escape_concat(a: Seq<u8>, b: Seq<u8>)
    ensures
        escape(a + b) == escape(a) + escape(b),
    decreases b.len(),
{
    if b.len() == 0 {
        assert(a + b =~= a);
        assert(escape(a) + escape(b) =~= escape(a));
    } else {
        lemma_escape_concat(a, b.drop_last());
        assert((a + b).drop_last() =~= a + b.drop_last());
        assert((a + b).last() == b.last());
        assert(escape(a + b) =~= escape(a) + escape(b));
    }
}

/// Bytes below `0x80` are UTF-8, each a character of its own.
proof fn lemma_ascii_is_utf8(s: Seq<u8>)
    requires
        forall|i: int| 0 <= i < s.len() ==> #[trigger] s[i] < 0x80,
    ensures
        valid_utf8(s),
    decreases s.len(),
{
    if s.len() > 0 {
        let first = s[0];
        assert(first < 0x80);
        assert((first & 0x7f) as u32 <= 0x7f) by (bit_vector);
        assert(valid_first_scalar(s));
        let rest = pop_first_scalar(s);
        assert forall|i: int| 0 <= i < rest.len() implies #[trigger] rest[i] < 0x80 by {
            assert(rest[i] == s[i + 1]);
        }
        lemma_ascii_is_utf8(rest);
    }
}

/// Escaping keeps UTF-8 what it is: only bytes below `0x80` are replaced,
/// and only by bytes below `0x80`.
proof fn lemma_escape_keeps_utf8(s: Seq<u8>)
    requires
        valid_utf8(s),
    ensures
        valid_utf8(escape(s)),
    decreases s.len(),
{
    if s.len() == 0 {
        assert(escape(s) =~= s);
    } else {
        let first = take_first_scalar(s);
        let rest = pop_first_scalar(s);
        assert(first + rest =~= s);
        let empty = Seq::<u8>::empty();
        let width = length_of_first_scalar(s);
        assert(valid_first_scalar(s));
        assert(1 <= width <= s.len());
        assert(first.len() == width);
        lemma_escape_keeps_utf8(rest);
        lemma_escape_concat(first, rest);
        if width == 1 {
            assert(first =~= seq![s[0]]);
            assert(first.drop_last() =~= empty);
            assert(first.last() == s[0]);
            assert(escape(empty) =~= empty);
            assert(escape(first) =~= escape_byte(s[0]));
            let out = escape_byte(s[0]);
            assert forall|i: int| 0 <= i < out.len() implies #[trigger] out[i] < 0x80 by {}
            lemma_ascii_is_utf8(out);
        } else {
            assert forall|i: int| 0 <= i < first.len() implies is_plain(#[trigger] first[i]) by {
                assert(first[i] == s[i]);
            }
            lemma_escape_plain(first);
            assert(valid_first_scalar(first)) by {
                assert(first[0] == s[0]);
                assert(first.len() >= 2 ==> first[1] == s[1]);
                assert(first.len() >= 3 ==> first[2] == s[2]);
                assert(first.len() >= 4 ==> first[3] == s[3]);
            }
            assert(length_of_first_scalar(first) == width);
            assert(pop_first_scalar(first) =~= empty);
            assert(valid_utf8(empty));
            assert(valid_utf8(first));
        }
        vstd::utf8::valid_utf8_concat(escape(first), escape(rest));
    }
}

/// The encoding of an object is UTF-8, whatever its name.
pub proof fn lemma_json_is_utf8(name: Seq<char>)
    ensures
        valid_utf8(json_object(name)),
{
    let head = "{\"name\":\"";
    let tail = "\"}";
    vstd::utf8::encode_utf8_valid_utf8(head@);
    vstd::utf8::encode_utf8_valid_utf8(tail@);
    vstd::utf8::encode_utf8_valid_utf8(name);
    lemma_escape_keeps_utf8(encode_utf8(name));
    vstd::utf8::valid_utf8_concat(head.spec_bytes(), escape(encode_utf8(name)));
    vstd::utf8::valid_utf8_concat(
        head.spec_bytes() + escape(encode_utf8(name)),
        tail.spec_bytes(),
    );
}

fn hex_digit_of(n: u8) -> (d: u8)
    requires
        n < 16,
    ensures
        d == hex_digit(n),
{
    if n < 10 {
        DIGIT_0 + n
    } else {
        LOWER_A + (n - 10)
    }
}

/// Appends the escape of one byte to `out`.
fn push_escaped(out: &mut Vec<u8>, b: u8)
    ensures
        final(out)@ == old(out)@ + escape_byte(b),
{
    if b == QUOTE || b == BACKSLASH {
        out.push(BACKSLASH);
        out.push(b);
    } else if b == BACKSPACE {
        out.push(BACKSLASH);
        out.push(LOWER_B);
    } else if b == TAB {
        out.push(BACKSLASH);
        out.push(LOWER_T);
    } else if b == LINE_FEED {
        out.push(BACKSLASH);
        out.push(LOWER_N);
    } else if b == FORM_FEED {
        out.push(BACKSLASH);
        out.push(LOWER_F);
    } else if b == CARRIAGE_RETURN {
        out.push(BACKSLASH);
        out.push(LOWER_R);
    } else if b < SPACE {
        out.push(BACKSLASH);
        out.push(LOWER_U);
        out.push(DIGIT_0);
        out.push(DIGIT_0);
        out.push(hex_digit_of(b / 16));
        out.push(hex_digit_of(b % 16));
    } else {
        out.push(b);
    }
    assert(out@ =~= old(out)@ + escape_byte(b));
}

/// Appends the contents of the JSON string literal for `s` to `out`.
pub fn push_escaped_str(out: &mut Vec<u8>, s: &[u8])
    ensures
        final(out)@ == old(out)@ + escape(s@),
{
    let mut i: usize = 0;
    while i < s.len()
        invariant
            i <= s@.len(),
            out@ == old(out)@ + escape(s@.take(i as int)),
        decreases s@.len() - i,
    {
        push_escaped(out, s[i]);
        proof {
            let next = s@.take(i + 1);
            assert(next.drop_last() =~= s@.take(i as int));
            assert(next.last() == s@[i as int]);
            assert(out@ =~= old(out)@ + escape(next));
        }
        i += 1;
    }
    assert(s@.take(i as int) =~= s@);
}

impl MyObj {
    /// The canonical encoding of the object.
    pub fn to_json(&self) -> (doc: Vec<u8>)
        ensures
            doc@ == json_object(self@),
    {
        let mut doc = "{\"name\":\"".as_bytes_vec();
        push_escaped_str(&mut doc, self.name.as_str().as_bytes());
        let mut tail = "\"}".as_bytes_vec();
        doc.append(&mut tail);
        doc
    }
}

} // verus!
