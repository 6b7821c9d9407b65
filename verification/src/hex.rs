//! Hexadecimal text: two digits for each byte, the high half first.

use vstd::prelude::*;
use crate::bytes::TransactionData;
use crate::errors::TransactionHexError;

verus! {

/// Whether `c` is one of `0`-`9`, `a`-`f`, `A`-`F`.
pub open spec fn is_hex_digit(c: char) -> bool {
    ('0' <= c && c <= '9') || ('a' <= c && c <= 'f') || ('A' <= c && c <= 'F')
}

/// The number from 0 to 15 that the hexadecimal digit `c` stands for.
pub open spec fn hex_digit_value(c: char) -> int {
    if '0' <= c && c <= '9' {
        c as int - '0' as int
    } else if 'a' <= c && c <= 'f' {
        c as int - 'a' as int + 10
    } else {
        c as int - 'A' as int + 10
    }
}

/// The lower-case hexadecimal digit for `n`, a number from 0 to 15.
pub open spec fn hex_digit(n: int) -> char {
    if n < 10 {
        ('0' as int + n) as char
    } else {
        ('a' as int + n - 10) as char
    }
}

/// Whether `text` spells bytes: an even number of hexadecimal digits.
pub open spec fn is_hex_text(text: Seq<char>) -> bool {
    &&& text.len() % 2 == 0
    &&& forall|i: int| 0 <= i < text.len() ==> is_hex_digit(#[trigger] text[i])
}

/// The bytes that the hexadecimal text `text` spells.
pub open spec fn hex_bytes(text: Seq<char>) -> Seq<u8> {
    Seq::new(
        text.len() / 2,
        |i: int| (16 * hex_digit_value(text[2 * i]) + hex_digit_value(text[2 * i + 1])) as u8,
    )
}

/// The lower-case hexadecimal text that spells `bytes`.
pub open spec fn hex_text(bytes: Seq<u8>) -> Seq<char> {
    Seq::new(
        2 * bytes.len(),
        |i: int|
            if i % 2 == 0 {
                hex_digit(bytes[i / 2] as int / 16)
            } else {
                hex_digit(bytes[i / 2] as int % 16)
            },
    )
}

/// The text that spells some bytes is hexadecimal, and it spells those
/// bytes and no others.
pub proof fn lemma_hex_round_trip(bytes: Seq<u8>)
    ensures
        is_hex_text(hex_text(bytes)),
        hex_bytes(hex_text(bytes)) == bytes,
{
    let text = hex_text(bytes);
    assert forall|n: int| 0 <= n < 16 implies is_hex_digit(#[trigger] hex_digit(n))
        && hex_digit_value(hex_digit(n)) == n by {}
    assert forall|i: int| 0 <= i < text.len() implies is_hex_digit(#[trigger] text[i]) by {
        let byte = bytes[i / 2] as int;
        assert(0 <= byte / 16 < 16 && 0 <= byte % 16 < 16);
    }
    assert forall|k: int| 0 <= k < bytes.len() implies #[trigger] hex_bytes(text)[k]
        == bytes[k] by {
        let byte = bytes[k] as int;
        assert(0 <= byte / 16 < 16 && 0 <= byte % 16 < 16);
        assert(text[2 * k] == hex_digit(byte / 16));
        assert(text[2 * k + 1] == hex_digit(byte % 16));
    }
}

/// What the `hex` crate says of a text that it refuses: the `Display` text
/// of the error that `hex::decode` returns for `text`. It depends on the
/// text alone.
pub uninterp spec fn hex_failure_text(text: Seq<char>) -> Seq<char>;

/// `hex::encode`: the text has two lower-case digits for each byte, in the
/// order of the bytes, the high half of a byte before its low half.
#[verifier::external_body]
pub(crate) fn encode_bytes(bytes: &[u8]) -> (text: String)
    ensures
        text@ == hex_text(bytes@),
{
    ::hex::encode(bytes)
}

/// `hex::decode`: it succeeds exactly on an even number of hexadecimal
/// digits, of either case, and then gives one byte for each pair of them.
/// On any other text it returns an error, which is handed on as its
/// `Display` text; that text is named, not spelled out.
#[verifier::external_body]
pub(crate) fn decode_text(text: &str) -> (result: Result<Vec<u8>, String>)
    ensures
        result is Ok <==> is_hex_text(text@),
        result matches Ok(bytes) ==> bytes@ == hex_bytes(text@),
        result matches Err(message) ==> message@ == hex_failure_text(text@),
{
    match ::hex::decode(text) {
        Ok(bytes) => Ok(bytes),
        Err(failure) => Err(failure.to_string()),
    }
}

/// Turns hexadecimal text into the bytes of a transaction.
///
/// Succeeds exactly on an even number of hexadecimal digits, upper or lower
/// case. Any other text is refused with the decoder's own description of
/// what is wrong.
pub fn decode(hex: &str) -> (result: Result<TransactionData, TransactionHexError>)
    ensures
        is_hex_text(hex@) ==> (result matches Ok(bytes) && bytes@ == hex_bytes(hex@)),
        !is_hex_text(hex@) ==> (result matches Err(TransactionHexError::InvalidHexData(reason))
            && reason@ == hex_failure_text(hex@)),
{
    match decode_text(hex) {
        Ok(bytes) => Ok(bytes),
        Err(message) => Err(TransactionHexError::InvalidHexData(message)),
    }
}

} // verus!
