//! Hexadecimal text: what a well-formed hex string is, what it decodes to,
//! and the canonical upper-case encoding of a byte sequence.

use vstd::prelude::*;

verus! {

/// An upper-case hex digit: `0`-`9` or `A`-`F`.
pub open spec fn is_upper_hex_digit(c: char) -> bool {
    ('0' <= c && c <= '9') || ('A' <= c && c <= 'F')
}

/// A lower-case hex digit: `0`-`9` or `a`-`f`.
pub open spec fn is_lower_hex_digit(c: char) -> bool {
    ('0' <= c && c <= '9') || ('a' <= c && c <= 'f')
}

/// The value of a hex digit of either case.
pub open spec fn digit_value(c: char) -> int {
    if '0' <= c && c <= '9' {
        c as int - '0' as int
    } else if 'A' <= c && c <= 'F' {
        c as int - 'A' as int + 10
    } else {
        c as int - 'a' as int + 10
    }
}

/// Text that a decoder of the given case accepts: an even number of
/// characters, each a hex digit of that case.
pub open spec fn is_hex_text(s: Seq<char>, upper: bool) -> bool {
    &&& s.len() % 2 == 0
    &&& forall|i: int|
        0 <= i < s.len() ==> if upper {
            is_upper_hex_digit(#[trigger] s[i])
        } else {
            is_lower_hex_digit(s[i])
        }
}

/// The bytes that well-formed hex text stands for, two digits to a byte,
/// the high nibble first.
pub open spec fn hex_decoded(s: Seq<char>) -> Seq<u8> {
    Seq::new(
        (s.len() / 2) as nat,
        |i: int| (16 * digit_value(s[2 * i]) + digit_value(s[2 * i + 1])) as u8,
    )
}

/// The upper-case hex digit for a nibble.
pub open spec fn upper_digit(n: int) -> char {
    if n < 10 {
        ('0' as int + n) as char
    } else {
        ('A' as int + n - 10) as char
    }
}

/// The canonical encoding: two upper-case digits per byte.
pub open spec fn hex_upper(b: Seq<u8>) -> Seq<char> {
    Seq::new(
        2 * b.len(),
        |i: int|
            if i % 2 == 0 {
                upper_digit(b[i / 2] as int / 16)
            } else {
                upper_digit(b[i / 2] as int % 16)
            },
    )
}

/// ASCII lower case of one character; other characters stay as they are.
pub open spec fn lower_char(c: char) -> char {
    if 'A' <= c && c <= 'Z' {
        (c as int + 32) as char
    } else {
        c
    }
}

/// ASCII lower case of text, character by character.
pub open spec fn ascii_lower(s: Seq<char>) -> Seq<char> {
    s.map_values(|c: char| lower_char(c))
}

/// A nibble's upper-case digit is an upper-case hex digit of that value.
pub proof fn lemma_upper_digit(n: int)
    requires
        0 <= n < 16,
    ensures
        is_upper_hex_digit(upper_digit(n)),
        digit_value(upper_digit(n)) == n,
{
}

/// The canonical encoding is upper-case hex text that decodes to the bytes
/// it encodes.
pub proof fn lemma_hex_upper_decodes(b: Seq<u8>)
    ensures
        is_hex_text(hex_upper(b), true),
        hex_decoded(hex_upper(b)) == b,
{
    let h = hex_upper(b);
    assert forall|i: int| 0 <= i < h.len() implies is_upper_hex_digit(#[trigger] h[i]) by {
        if i % 2 == 0 {
            lemma_upper_digit(b[i / 2] as int / 16);
        } else {
            lemma_upper_digit(b[i / 2] as int % 16);
        }
    }
    assert forall|k: int| 0 <= k < b.len() implies #[trigger] hex_decoded(h)[k] == b[k] by {
        assert((2 * k) / 2 == k);
        assert((2 * k + 1) / 2 == k);
        assert((2 * k) % 2 == 0);
        assert((2 * k + 1) % 2 == 1);
        lemma_upper_digit(b[k] as int / 16);
        lemma_upper_digit(b[k] as int % 16);
    }
    assert(hex_decoded(h) =~= b);
}

/// Lower-casing upper-case hex text gives lower-case hex text with the same
/// decoded bytes.
pub proof fn lemma_lower_of_upper_hex(s: Seq<char>)
    requires
        is_hex_text(s, true),
    ensures
        is_hex_text(ascii_lower(s), false),
        hex_decoded(ascii_lower(s)) == hex_decoded(s),
{
    let l = ascii_lower(s);
    assert forall|i: int| 0 <= i < l.len() implies is_lower_hex_digit(#[trigger] l[i]) && digit_value(l[i]) == digit_value(s[i]) by {
        assert(is_upper_hex_digit(s[i]));
    }
    assert forall|k: int| 0 <= k < hex_decoded(s).len() implies #[trigger] hex_decoded(l)[k] == hex_decoded(s)[k] by {
        assert(digit_value(l[2 * k]) == digit_value(s[2 * k]));
        assert(digit_value(l[2 * k + 1]) == digit_value(s[2 * k + 1]));
    }
    assert(hex_decoded(l) =~= hex_decoded(s));
}

/// Relies on `String::push`: appends one character.
#[verifier::external_body]
fn push_char(s: &mut String, c: char)
    ensures
        final(s)@ == old(s)@.push(c),
{
    s.push(c)
}

fn nibble_digit(n: u8) -> (c: char)
    requires
        n < 16,
    ensures
        c == upper_digit(n as int),
{
    if n < 10 {
        (0x30u8 + n) as char
    } else {
        (0x37u8 + n) as char
    }
}

/// Appends the canonical encoding of `bytes` to `out`.
pub fn push_hex_upper(out: &mut String, bytes: &[u8])
    ensures
        final(out)@ == old(out)@ + hex_upper(bytes@),
{
    let ghost start = out@;
    let mut i: usize = 0;
    while i < bytes.len()
        invariant
            i <= bytes@.len(),
            out@ == start + hex_upper(bytes@.subrange(0, i as int)),
        decreases bytes@.len() - i,
    {
        let b = bytes[i];
        let ghost before = out@;
        push_char(out, nibble_digit(b / 16));
        push_char(out, nibble_digit(b % 16));
        proof {
            let prev = bytes@.subrange(0, i as int);
            let next = bytes@.subrange(0, i + 1);
            assert(prev =~= next.subrange(0, i as int));
            assert(hex_upper(next) =~= hex_upper(prev) + seq![
                upper_digit(b as int / 16),
                upper_digit(b as int % 16),
            ]);
        }
        i = i + 1;
    }
    assert(bytes@.subrange(0, i as int) =~= bytes@);
}

#[verifier::external_type_specification]
#[verifier::external_body]
pub struct ExHexError(subtle_encoding::Error);

/// Relies on `subtle_encoding::hex::decode_upper`: it accepts exactly an even
/// number of upper-case hex digits (no whitespace, no other byte) and yields
/// the byte of each pair of digits.
#[verifier::external_body]
pub(crate) fn decode_upper_hex(s: &str) -> (r: Result<Vec<u8>, subtle_encoding::Error>)
    ensures
        r is Ok <==> is_hex_text(s@, true),
        r is Ok ==> r->Ok_0@ == hex_decoded(s@),
{
    subtle_encoding::hex::decode_upper(s)
}

/// Relies on `subtle_encoding::hex::decode`: it accepts exactly an even
/// number of lower-case hex digits (no whitespace, no other byte) and yields
/// the byte of each pair of digits.
#[verifier::external_body]
pub(crate) fn decode_lower_hex(s: &str) -> (r: Result<Vec<u8>, subtle_encoding::Error>)
    ensures
        r is Ok <==> is_hex_text(s@, false),
        r is Ok ==> r->Ok_0@ == hex_decoded(s@),
{
    subtle_encoding::hex::decode(s)
}

} // verus!
