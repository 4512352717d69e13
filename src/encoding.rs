//! Percent-encoding of URL components over the alphanumeric unreserved set.

use vstd::prelude::*;
use vstd::utf8::*;
use crate::path::replaced;

verus! {

/// An ASCII letter or digit: the only bytes that pass through unencoded.
pub open spec fn is_alnum_byte(b: u8) -> bool {
    (0x30 <= b <= 0x39) || (0x41 <= b <= 0x5A) || (0x61 <= b <= 0x7A)
}

/// An ASCII letter or digit, as a character.
pub open spec fn is_alnum_char(c: char) -> bool {
    ('0' <= c <= '9') || ('A' <= c <= 'Z') || ('a' <= c <= 'z')
}

/// The uppercase hexadecimal digit for `d` in `0..16`.
pub open spec fn hex_digit(d: int) -> char {
    seq!['0', '1', '2', '3', '4', '5', '6', '7', '8', '9', 'A', 'B', 'C', 'D', 'E', 'F'][d]
}

/// One byte after encoding: itself when alphanumeric, else `%HH`.
pub open spec fn encoded_byte(b: u8) -> Seq<char> {
    if is_alnum_byte(b) {
        seq![b as char]
    } else {
        seq!['%', hex_digit(b as int / 16), hex_digit(b as int % 16)]
    }
}

/// A byte string with every byte outside `[A-Za-z0-9]` written as `%HH`.
pub open spec fn encoded_bytes(bytes: Seq<u8>) -> Seq<char>
    decreases bytes.len(),
{
    if bytes.len() == 0 {
        seq![]
    } else {
        encoded_byte(bytes[0]) + encoded_bytes(bytes.drop_first())
    }
}

/// The percent-encoding of a string: its UTF-8 bytes, encoded one by one.
pub open spec fn encoded(s: Seq<char>) -> Seq<char> {
    encoded_bytes(encode_utf8(s))
}

/// Relies on percent_encoding::utf8_percent_encode with the NON_ALPHANUMERIC
/// set, rendered through its `Display`: each UTF-8 byte that is not an ASCII
/// letter or digit becomes `%` and two uppercase hex digits; the others pass.
#[verifier::external_body]
fn percent_encode_alnum(s: &str) -> (r: String)
    ensures
        r@ == encoded(s@),
{
    percent_encoding::utf8_percent_encode(s, percent_encoding::NON_ALPHANUMERIC).to_string()
}

/// Percent-encodes `s`: every byte of its UTF-8 form outside `[A-Za-z0-9]`
/// is replaced by `%HH` in uppercase hex.
pub fn encode_component(s: &str) -> (r: String)
    ensures
        r@ == encoded(s@),
{
    percent_encode_alnum(s)
}

/// Every character of an encoded byte string is an ASCII letter, a digit
/// or `%`.
pub proof fn lemma_encoded_bytes_charset(bytes: Seq<u8>)
    ensures
        forall|i: int|
            0 <= i < encoded_bytes(bytes).len() ==> is_alnum_char(#[trigger] encoded_bytes(bytes)[i])
                || encoded_bytes(bytes)[i] == '%',
    decreases bytes.len(),
{
    if bytes.len() > 0 {
        lemma_encoded_bytes_charset(bytes.drop_first());
        let b = bytes[0];
        assert(0 <= b as int / 16 < 16 && 0 <= b as int % 16 < 16);
        let head = encoded_byte(b);
        let tail = encoded_bytes(bytes.drop_first());
        assert forall|i: int| 0 <= i < head.len() implies is_alnum_char(#[trigger] head[i])
            || head[i] == '%' by {
            if !is_alnum_byte(b) && i > 0 {
                let d = if i == 1 { b as int / 16 } else { b as int % 16 };
                assert(head[i] == hex_digit(d));
            }
        }
        assert forall|i: int| 0 <= i < encoded_bytes(bytes).len() implies is_alnum_char(
            #[trigger] encoded_bytes(bytes)[i],
        ) || encoded_bytes(bytes)[i] == '%' by {
            if i < head.len() {
                assert(encoded_bytes(bytes)[i] == head[i]);
            } else {
                assert(encoded_bytes(bytes)[i] == tail[i - head.len()]);
            }
        }
    }
}

/// Every character of an encoded string is an ASCII letter, a digit or `%`.
pub proof fn lemma_encoded_charset(s: Seq<char>)
    ensures
        forall|i: int|
            0 <= i < encoded(s).len() ==> is_alnum_char(#[trigger] encoded(s)[i]) || encoded(s)[i]
                == '%',
{
    lemma_encoded_bytes_charset(encode_utf8(s));
}

proof fn lemma_ascii_byte(c: char)
    requires
        is_alnum_char(c) || c == '%',
    ensures
        encode_scalar(c as u32) == seq![c as u32 as u8],
        (c as u32 as u8) as char == c,
        is_alnum_byte(c as u32 as u8) == is_alnum_char(c),
{
    let v = c as u32;
    assert(v <= 0x7F ==> v & 0x7F == v) by (bit_vector);
}

/// Encoding a string made of letters, digits and `%` changes each `%` into
/// `%25` and leaves everything else as it is.
pub proof fn lemma_encoding_escapes_percent(s: Seq<char>)
    requires
        forall|i: int| 0 <= i < s.len() ==> is_alnum_char(#[trigger] s[i]) || s[i] == '%',
    ensures
        encoded(s) == replaced(s, seq!['%'], seq!['%', '2', '5']),
    decreases s.len(),
{
    let pct = seq!['%'];
    let esc = seq!['%', '2', '5'];
    if s.len() > 0 {
        let rest = s.drop_first();
        assert(forall|i: int| 0 <= i < rest.len() ==> rest[i] == s[i + 1]);
        lemma_encoding_escapes_percent(rest);
        let c = s[0];
        lemma_ascii_byte(c);
        let b = c as u32 as u8;
        let bytes = encode_utf8(s);
        assert(bytes == seq![b] + encode_utf8(rest));
        assert((seq![b] + encode_utf8(rest)).drop_first() =~= encode_utf8(rest));
        assert(encoded(s) == encoded_byte(b) + encoded(rest));
        assert(s.skip(1) =~= rest);
        if c == '%' {
            assert(s.take(1) =~= pct);
            assert(b == 0x25);
            assert(encoded_byte(b) =~= esc);
        } else {
            assert(s.take(1)[0] != pct[0]);
            assert(encoded_byte(b) =~= seq![c]);
        }
        assert(encoded(s) =~= replaced(s, pct, esc));
    } else {
        assert(encode_utf8(s) =~= Seq::<u8>::empty());
    }
}

/// Encoding is no fixed point: encoding an encoded string again turns each
/// of its `%` signs into `%25` and changes nothing else.
pub proof fn lemma_reencoding_escapes_percent(t: Seq<char>)
    ensures
        encoded(encoded(t)) == replaced(encoded(t), seq!['%'], seq!['%', '2', '5']),
{
    lemma_encoded_charset(t);
    lemma_encoding_escapes_percent(encoded(t));
}

} // verus!
