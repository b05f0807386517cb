//! Percent-encoding, as the query string of a URL wants it.
//!
//! Text is encoded byte by byte over its UTF-8 form by `urlencoding`. What
//! it returns is stated here in full, and with it what decoding gives back.

use crate::text::chars_of;
use vstd::prelude::*;
use vstd::utf8::{decode_utf8, encode_scalar, encode_utf8, encode_utf8_decode_utf8};

verus! {

/// Whether a byte stands for itself in encoded text: an ASCII letter, a
/// digit, or one of `-`, `.`, `_` and `~`.
pub open spec fn is_unreserved(byte: u8) -> bool {
    ||| 0x30 <= byte <= 0x39
    ||| 0x41 <= byte <= 0x5A
    ||| 0x61 <= byte <= 0x7A
    ||| byte == 0x2D
    ||| byte == 0x2E
    ||| byte == 0x5F
    ||| byte == 0x7E
}

/// The upper-case hexadecimal digit for a value below sixteen.
pub open spec fn hex_digit(value: u8) -> char {
    if value < 10 {
        (0x30 + value) as char
    } else {
        (0x37 + value) as char
    }
}

/// What one byte is encoded as: itself, or `%` and its two hexadecimal
/// digits.
pub open spec fn encoded_byte(byte: u8) -> Seq<char> {
    if is_unreserved(byte) {
        seq![byte as char]
    } else {
        seq!['%', hex_digit(byte / 16), hex_digit(byte % 16)]
    }
}

/// The percent-encoding of a sequence of bytes.
pub open spec fn percent_encoded(bytes: Seq<u8>) -> Seq<char>
    decreases bytes.len(),
{
    if bytes.len() == 0 {
        Seq::empty()
    } else {
        encoded_byte(bytes.first()) + percent_encoded(bytes.drop_first())
    }
}

/// Whether `c` is a hexadecimal digit, of either case.
pub open spec fn is_hex_digit(c: char) -> bool {
    ||| '0' <= c <= '9'
    ||| 'A' <= c <= 'F'
    ||| 'a' <= c <= 'f'
}

/// The value of a hexadecimal digit.
pub open spec fn hex_value(c: char) -> int {
    if '0' <= c <= '9' {
        c as int - 0x30
    } else if 'A' <= c <= 'F' {
        c as int - 0x37
    } else {
        c as int - 0x57
    }
}

/// The bytes that percent-decoding makes of a text: `%` with two hexadecimal
/// digits behind it is the byte they spell, and any other character stands
/// for its own UTF-8 form.
pub open spec fn percent_decoded(text: Seq<char>) -> Seq<u8>
    decreases text.len(),
{
    if text.len() == 0 {
        Seq::empty()
    } else if text.len() >= 3 && text[0] == '%' && is_hex_digit(text[1]) && is_hex_digit(text[2]) {
        seq![(hex_value(text[1]) * 16 + hex_value(text[2])) as u8] + percent_decoded(text.skip(3))
    } else {
        encode_scalar(text[0] as u32) + percent_decoded(text.skip(1))
    }
}

/// `urlencoding::encode`: walks the UTF-8 bytes of `text`, keeps the ASCII
/// letters, the digits and `-`, `.`, `_`, `~`, and writes every other byte
/// as `%` and two upper-case hexadecimal digits.
#[verifier::external_body]
pub(crate) fn encode(text: &str) -> (encoded: String)
    ensures
        encoded@ == percent_encoded(encode_utf8(text@)),
{
    urlencoding::encode(text).into_owned()
}

/// `text` with `+` in place of each `%20`, taken from left to right.
pub open spec fn plus_for_space(text: Seq<char>) -> Seq<char>
    decreases text.len(),
{
    if text.len() == 0 {
        Seq::empty()
    } else if text.len() >= 3 && text[0] == '%' && text[1] == '2' && text[2] == '0' {
        seq!['+'] + plus_for_space(text.skip(3))
    } else {
        seq![text[0]] + plus_for_space(text.skip(1))
    }
}

/// Writes `+` for each encoded space of `text`.
pub fn space_as_plus(text: &str) -> (normal: String)
    ensures
        normal@ == plus_for_space(text@),
{
    let chars = chars_of(text);
    let mut normal = String::new();
    let mut i: usize = 0;
    assert(chars@.skip(0) == chars@);
    while i < chars.len()
        invariant
            i <= chars.len(),
            plus_for_space(chars@) == normal@ + plus_for_space(chars@.skip(i as int)),
        decreases chars.len() - i,
    {
        let ghost rest = chars@.skip(i as int);
        let ghost before = normal@;
        if chars.len() - i >= 3 && chars[i] == '%' && chars[i + 1] == '2' && chars[i + 2] == '0' {
            normal.push('+');
            assert(rest.skip(3) == chars@.skip(i + 3));
            assert(normal@ + plus_for_space(rest.skip(3)) == before + (seq!['+'] + plus_for_space(
                rest.skip(3),
            )));
            i += 3;
        } else {
            normal.push(chars[i]);
            assert(rest.skip(1) == chars@.skip(i + 1));
            assert(normal@ + plus_for_space(rest.skip(1)) == before + (seq![rest[0]]
                + plus_for_space(rest.skip(1))));
            i += 1;
        }
    }
    assert(normal@ + Seq::<char>::empty() == normal@);
    normal
}

proof fn lemma_hex_round_trip(value: u8)
    requires
        value < 16,
    ensures
        is_hex_digit(hex_digit(value)),
        hex_value(hex_digit(value)) == value,
        hex_digit(value) != '%',
{
}

proof fn lemma_byte_round_trip(byte: u8)
    ensures
        !is_unreserved(byte) ==> hex_value(hex_digit(byte / 16)) * 16 + hex_value(
            hex_digit(byte % 16),
        ) == byte,
        is_unreserved(byte) ==> encode_scalar((byte as char) as u32) == seq![byte] && byte as char
            != '%',
{
    lemma_hex_round_trip(byte / 16);
    lemma_hex_round_trip(byte % 16);
    if is_unreserved(byte) {
        let c = (byte as char) as u32;
        assert(c == byte as u32);
        assert(c as u8 == vstd::utf8::leading_byte_width_1(c)) by (bit_vector)
            requires
                c <= 0x7F,
        ;
    }
}

/// Decoding takes encoded bytes off the front of a text as they were.
pub proof fn lemma_decoded_encoded(bytes: Seq<u8>, rest: Seq<char>)
    ensures
        percent_decoded(percent_encoded(bytes) + rest) == bytes + percent_decoded(rest),
    decreases bytes.len(),
{
    if bytes.len() == 0 {
        assert(percent_encoded(bytes) + rest == rest);
        assert(bytes + percent_decoded(rest) == percent_decoded(rest));
    } else {
        let byte = bytes.first();
        let tail = bytes.drop_first();
        let text = percent_encoded(bytes) + rest;
        let after = percent_encoded(tail) + rest;
        lemma_byte_round_trip(byte);
        lemma_hex_round_trip(byte / 16);
        lemma_hex_round_trip(byte % 16);
        lemma_decoded_encoded(tail, rest);
        if is_unreserved(byte) {
            assert(text.skip(1) == after);
            assert(text[0] == byte as char);
        } else {
            assert(text.skip(3) == after);
            assert(text[0] == '%');
            assert(text[1] == hex_digit(byte / 16));
            assert(text[2] == hex_digit(byte % 16));
        }
        assert(seq![byte] + (tail + percent_decoded(rest)) == bytes + percent_decoded(rest));
    }
}

/// Decoding leaves text without a `%` as it is.
pub proof fn lemma_decoded_plain(plain: Seq<char>, rest: Seq<char>)
    requires
        !plain.contains('%'),
    ensures
        percent_decoded(plain + rest) == encode_utf8(plain) + percent_decoded(rest),
    decreases plain.len(),
{
    if plain.len() == 0 {
        assert(plain + rest == rest);
        assert(encode_utf8(plain) + percent_decoded(rest) == percent_decoded(rest));
    } else {
        let text = plain + rest;
        let tail = plain.drop_first();
        assert(plain.contains(plain[0]));
        assert forall|c: char| tail.contains(c) implies plain.contains(c) by {
            let i = choose|i: int| 0 <= i < tail.len() && tail[i] == c;
            assert(plain[i + 1] == c);
        }
        lemma_decoded_plain(tail, rest);
        assert(text.skip(1) == tail + rest);
        assert(text[0] == plain[0]);
        assert(encode_scalar(plain[0] as u32) + (encode_utf8(tail) + percent_decoded(rest))
            == encode_utf8(plain) + percent_decoded(rest));
    }
}

/// The UTF-8 form of two texts in a row is their UTF-8 forms in a row.
pub proof fn lemma_encode_utf8_concat(a: Seq<char>, b: Seq<char>)
    ensures
        encode_utf8(a + b) == encode_utf8(a) + encode_utf8(b),
    decreases a.len(),
{
    if a.len() == 0 {
        assert(a + b == b);
        assert(encode_utf8(a) + encode_utf8(b) == encode_utf8(b));
    } else {
        lemma_encode_utf8_concat(a.drop_first(), b);
        assert((a + b).drop_first() == a.drop_first() + b);
        assert(encode_scalar(a[0] as u32) + (encode_utf8(a.drop_first()) + encode_utf8(b))
            == encode_utf8(a) + encode_utf8(b));
    }
}

/// Text that is put between two texts without a `%` and encoded comes back
/// from decoding as it was: the bytes are those of the three texts in a row,
/// and read as UTF-8 they are that text again.
pub proof fn lemma_decoded_framed(before: Seq<char>, text: Seq<char>, after: Seq<char>)
    requires
        !before.contains('%'),
        !after.contains('%'),
    ensures
        percent_decoded(before + percent_encoded(encode_utf8(text)) + after) == encode_utf8(
            before + text + after,
        ),
        decode_utf8(percent_decoded(before + percent_encoded(encode_utf8(text)) + after)) == before
            + text + after,
{
    let encoded = percent_encoded(encode_utf8(text));
    assert(before + encoded + after == before + (encoded + after));
    lemma_decoded_plain(before, encoded + after);
    lemma_decoded_encoded(encode_utf8(text), after);
    assert(after + Seq::<char>::empty() == after);
    lemma_decoded_plain(after, Seq::empty());
    assert(percent_decoded(Seq::<char>::empty()) == Seq::<u8>::empty());
    assert(encode_utf8(after) + Seq::<u8>::empty() == encode_utf8(after));
    lemma_encode_utf8_concat(before, text);
    lemma_encode_utf8_concat(before + text, after);
    assert(encode_utf8(before) + (encode_utf8(text) + encode_utf8(after)) == encode_utf8(before)
        + encode_utf8(text) + encode_utf8(after));
    encode_utf8_decode_utf8(before + text + after);
}

} // verus!
