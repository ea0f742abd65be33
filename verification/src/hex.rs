//! Hex text for byte strings: what `alloy_primitives::hex` encodes and
//! decodes, stated over sequences, and the two calls into it.
use vstd::prelude::*;

use alloy_primitives::hex::FromHexError;

use crate::error::HexError;

verus! {

/// The lowercase hex digit for a value below 16.
pub open spec fn nibble_char(n: u8) -> char {
    if n < 10 {
        (48 + n) as char
    } else {
        (87 + n) as char
    }
}

/// Lowercase hex text of `bytes`: two digits per byte, high nibble first.
pub open spec fn hex_lower(bytes: Seq<u8>) -> Seq<char> {
    Seq::new(
        2 * bytes.len(),
        |j: int|
            nibble_char(
                if j % 2 == 0 {
                    bytes[j / 2] / 16
                } else {
                    bytes[j / 2] % 16
                },
            ),
    )
}

/// `b` is the code of `0-9`, `a-f` or `A-F`.
pub open spec fn is_hex_digit(b: u8) -> bool {
    (48 <= b <= 57) || (97 <= b <= 102) || (65 <= b <= 70)
}

/// The value of a hex digit code.
pub open spec fn hex_digit_value(b: u8) -> int {
    if 48 <= b <= 57 {
        b - 48
    } else if 97 <= b <= 102 {
        b - 87
    } else {
        b - 55
    }
}

/// The input without a leading `0x` or `0X`.
pub open spec fn strip_hex_prefix(input: Seq<u8>) -> Seq<u8> {
    if input.len() >= 2 && input[0] == 48 && (input[1] == 120 || input[1] == 88) {
        input.skip(2)
    } else {
        input
    }
}

/// Every byte is a hex digit code.
pub open spec fn all_hex_digits(d: Seq<u8>) -> bool {
    forall|i: int| 0 <= i < d.len() ==> #[trigger] is_hex_digit(d[i])
}

/// The position of the first byte that is not a hex digit code.
pub open spec fn first_non_hex_digit(d: Seq<u8>) -> int {
    choose|k: int|
        0 <= k < d.len() && !is_hex_digit(d[k]) && forall|j: int|
            0 <= j < k ==> #[trigger] is_hex_digit(d[j])
}

/// What decoding the hex text with bytes `input` gives: the length must be
/// even (prefix included), an optional `0x`/`0X` is dropped, every remaining
/// byte must be a hex digit (else the first bad one is reported), and each
/// pair of digits makes one byte.
pub open spec fn hex_decode_spec(input: Seq<u8>) -> Result<Seq<u8>, HexError> {
    if input.len() % 2 != 0 {
        Err(HexError::OddLength)
    } else {
        let d = strip_hex_prefix(input);
        if all_hex_digits(d) {
            Ok(
                Seq::new(
                    d.len() / 2,
                    |i: int| (hex_digit_value(d[2 * i]) * 16 + hex_digit_value(d[2 * i + 1])) as u8,
                ),
            )
        } else {
            let k = first_non_hex_digit(d);
            Err(HexError::InvalidHexCharacter { c: d[k] as char, index: k as usize })
        }
    }
}

/// The digit for a nibble is a hex digit code whose value is the nibble.
proof fn lemma_nibble_char(n: u8)
    requires
        n < 16,
    ensures
        ('\0' <= nibble_char(n) <= '\u{7f}'),
        is_hex_digit(nibble_char(n) as u8),
        hex_digit_value(nibble_char(n) as u8) == n,
{
}

/// Every character of hex text is an ASCII hex digit.
pub proof fn lemma_hex_lower_digits(bytes: Seq<u8>)
    ensures
        forall|j: int|
            0 <= j < hex_lower(bytes).len() ==> ('\0' <= #[trigger] hex_lower(bytes)[j] <= '\u{7f}')
                && is_hex_digit(hex_lower(bytes)[j] as u8),
{
    let h = hex_lower(bytes);
    assert forall|j: int| 0 <= j < h.len() implies ('\0' <= #[trigger] h[j] <= '\u{7f}')
        && is_hex_digit(h[j] as u8) by {
        lemma_nibble_char(bytes[j / 2] / 16);
        lemma_nibble_char(bytes[j / 2] % 16);
    }
}

/// Byte codes of the hex text of `bytes` are all hex digits, and pairing
/// them up gives `bytes` back.
proof fn lemma_decode_hex_codes(bytes: Seq<u8>, d: Seq<u8>)
    requires
        d.len() == hex_lower(bytes).len(),
        forall|j: int| 0 <= j < d.len() ==> #[trigger] d[j] == hex_lower(bytes)[j] as u8,
    ensures
        all_hex_digits(d),
        Seq::new(
            d.len() / 2,
            |i: int| (hex_digit_value(d[2 * i]) * 16 + hex_digit_value(d[2 * i + 1])) as u8,
        ) == bytes,
{
    lemma_hex_lower_digits(bytes);
    let h = hex_lower(bytes);
    assert forall|j: int| 0 <= j < d.len() implies #[trigger] is_hex_digit(d[j]) by {
        assert(d[j] == h[j] as u8);
    }
    let out = Seq::new(
        d.len() / 2,
        |i: int| (hex_digit_value(d[2 * i]) * 16 + hex_digit_value(d[2 * i + 1])) as u8,
    );
    assert forall|i: int| 0 <= i < bytes.len() implies #[trigger] out[i] == bytes[i] by {
        assert((2 * i) / 2 == i && (2 * i) % 2 == 0);
        assert((2 * i + 1) / 2 == i && (2 * i + 1) % 2 == 1);
        lemma_nibble_char(bytes[i] / 16);
        lemma_nibble_char(bytes[i] % 16);
        assert(d[2 * i] == nibble_char(bytes[i] / 16) as u8);
        assert(d[2 * i + 1] == nibble_char(bytes[i] % 16) as u8);
        assert((bytes[i] / 16) * 16 + bytes[i] % 16 == bytes[i]);
    }
    assert(out =~= bytes);
}

/// Lowercase hex text with a `0x` prefix decodes back to the bytes it was
/// made from.
pub proof fn lemma_hex_decode_prefixed(bytes: Seq<u8>)
    ensures
        hex_decode_spec(vstd::utf8::encode_utf8(seq!['0', 'x'] + hex_lower(bytes)))
            == Ok::<Seq<u8>, HexError>(bytes),
{
    let h = hex_lower(bytes);
    let chars = seq!['0', 'x'] + h;
    lemma_hex_lower_digits(bytes);
    assert(vstd::utf8::is_ascii_chars(chars)) by {
        assert forall|j: int| 0 <= j < chars.len() implies '\0' <= #[trigger] chars[j] <= '\u{7f}' by {
            if j >= 2 {
                assert(chars[j] == h[j - 2]);
            }
        }
    }
    vstd::utf8::is_ascii_chars_encode_utf8(chars);
    let u = vstd::utf8::encode_utf8(chars);
    assert(u[0] == 48);
    assert(u[1] == 120);
    let d = strip_hex_prefix(u);
    assert(d =~= u.skip(2));
    assert forall|j: int| 0 <= j < d.len() implies #[trigger] d[j] == h[j] as u8 by {
        assert(chars[j + 2] == h[j]);
    }
    lemma_decode_hex_codes(bytes, d);
}

/// Lowercase hex text without a prefix decodes back to the bytes it was made
/// from.
pub proof fn lemma_hex_decode_plain(bytes: Seq<u8>)
    ensures
        hex_decode_spec(vstd::utf8::encode_utf8(hex_lower(bytes))) == Ok::<Seq<u8>, HexError>(
            bytes,
        ),
{
    let h = hex_lower(bytes);
    lemma_hex_lower_digits(bytes);
    assert(vstd::utf8::is_ascii_chars(h));
    vstd::utf8::is_ascii_chars_encode_utf8(h);
    let u = vstd::utf8::encode_utf8(h);
    if u.len() >= 2 {
        assert(u[1] == h[1] as u8);
        assert(is_hex_digit(h[1] as u8));
    }
    assert(strip_hex_prefix(u) == u);
    lemma_decode_hex_codes(bytes, u);
}

/// Encodes bytes as lowercase hex text with `alloy_primitives::hex::encode`.
///
/// Trusted: the crate documents the result as two lowercase hex digits per
/// byte, high nibble first, with no prefix; that is what the contract states.
#[verifier::external_body]
pub(crate) fn hex_encode(bytes: &[u8]) -> (text: String)
    ensures
        text@ == hex_lower(bytes@),
{
    alloy_primitives::hex::encode(bytes)
}

/// Decodes hex text with `alloy_primitives::hex::decode`, and names its error
/// with the library's own [`HexError`].
///
/// Trusted: per the crate's source, the call rejects an odd number of bytes
/// first, then drops a `0x`/`0X` prefix, accepts digits of either case, and
/// reports the first byte that is not a digit with its position after the
/// prefix; the contract states this over the string's UTF-8 bytes.
#[verifier::external_body]
pub(crate) fn hex_decode(text: &str) -> (res: Result<Vec<u8>, HexError>)
    ensures
        match res {
            Ok(bytes) => hex_decode_spec(vstd::utf8::encode_utf8(text@)) == Ok::<Seq<u8>, HexError>(bytes@),
            Err(e) => hex_decode_spec(vstd::utf8::encode_utf8(text@)) == Err::<Seq<u8>, HexError>(e),
        },
{
    match alloy_primitives::hex::decode(text) {
        Ok(bytes) => Ok(bytes),
        Err(FromHexError::InvalidHexCharacter { c, index }) => Err(HexError::InvalidHexCharacter { c, index }),
        Err(FromHexError::OddLength) => Err(HexError::OddLength),
        Err(FromHexError::InvalidStringLength) => Err(HexError::InvalidStringLength),
    }
}

} // verus!
