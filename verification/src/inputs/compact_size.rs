//! Compact-size integers: one leading byte that either is the value or says
//! how many bytes after it hold the value, most significant byte first.

use vstd::prelude::*;
use crate::inputs::errors::ReadCompactSizeError;
use crate::integers::{
    be_bytes, be_value, lemma_be_round_trip, lemma_pow256_values, pow256, push_be, read_be,
};

verus! {

/// A decoded compact-size integer and the number of bytes that spelled it.
#[derive(Debug, Clone, Copy, PartialEq, Eq, Structural)]
pub struct CompactSizeValue {
    pub value: u64,
    pub consumed: usize,
}

/// The number of bytes that follow the leading byte `head`.
pub open spec fn compact_size_width(head: u8) -> nat {
    if head <= 252 {
        0
    } else if head == 253 {
        2
    } else if head == 254 {
        4
    } else {
        8
    }
}

/// What the leading byte `head` and the bytes `tail` after it decode to.
pub open spec fn compact_size_of(head: u8, tail: Seq<u8>) -> Result<u64, ReadCompactSizeError> {
    if head <= 252 {
        Ok(head as u64)
    } else if tail.len() < compact_size_width(head) {
        Err(ReadCompactSizeError::InsufficientData { length: tail.len() as usize })
    } else {
        Ok(be_value(tail.subrange(0, compact_size_width(head) as int)) as u64)
    }
}

/// What the bytes of `bytes` from `offset` on decode to.
pub open spec fn compact_size_from(bytes: Seq<u8>, offset: int) -> Result<
    CompactSizeValue,
    ReadCompactSizeError,
> {
    if offset >= bytes.len() {
        Err(ReadCompactSizeError::InsufficientData { length: 0 })
    } else {
        match compact_size_of(bytes[offset], bytes.subrange(offset + 1, bytes.len() as int)) {
            Ok(value) => Ok(
                CompactSizeValue {
                    value,
                    consumed: (1 + compact_size_width(bytes[offset])) as usize,
                },
            ),
            Err(error) => Err(error),
        }
    }
}

/// The shortest compact-size encoding of `value`.
pub open spec fn compact_size_encoding(value: u64) -> Seq<u8> {
    if value <= 252 {
        seq![value as u8]
    } else if value <= 0xFFFF {
        seq![253u8] + be_bytes(value as nat, 2)
    } else if value <= 0xFFFF_FFFF {
        seq![254u8] + be_bytes(value as nat, 4)
    } else {
        seq![255u8] + be_bytes(value as nat, 8)
    }
}

/// Decodes the compact-size integer whose leading byte is `head` and whose
/// further bytes, if it has any, are the first of `tail`.
///
/// A leading byte up to 252 is the value. 253, 254 and 255 announce 2, 4 and
/// 8 bytes; where `tail` is shorter than that, the error reports its length.
pub fn read_compact_size(head: u8, tail: &[u8]) -> (result: Result<u64, ReadCompactSizeError>)
    ensures
        result == compact_size_of(head, tail@),
        head <= 252 ==> result == Ok::<u64, ReadCompactSizeError>(head as u64),
        head >= 253 && tail@.len() < compact_size_width(head) ==> result == Err::<
            u64,
            ReadCompactSizeError,
        >(ReadCompactSizeError::InsufficientData { length: tail@.len() as usize }),
{
    if head <= 252 {
        return Ok(head as u64);
    }
    let width: usize = if head == 253 {
        2
    } else if head == 254 {
        4
    } else {
        8
    };
    if tail.len() < width {
        return Err(ReadCompactSizeError::InsufficientData { length: tail.len() });
    }
    Ok(read_be(tail, 0, width))
}

/// Decodes the compact-size integer that starts at `offset` in `bytes`, and
/// says how many bytes it took.
///
/// Fails with `InsufficientData` where the buffer has no byte at `offset`
/// (no bytes are left) or ends before the announced bytes do (the error
/// reports how many follow the leading byte).
pub fn compact_size_at(bytes: &[u8], offset: usize) -> (result: Result<
    CompactSizeValue,
    ReadCompactSizeError,
>)
    ensures
        result == compact_size_from(bytes@, offset as int),
        offset < bytes@.len() && bytes@[offset as int] <= 252 ==> result == Ok::<
            CompactSizeValue,
            ReadCompactSizeError,
        >(CompactSizeValue { value: bytes@[offset as int] as u64, consumed: 1 }),
        offset < bytes@.len() && bytes@[offset as int] >= 253 && bytes@.len() - offset - 1
            < compact_size_width(bytes@[offset as int]) ==> result == Err::<
            CompactSizeValue,
            ReadCompactSizeError,
        >(ReadCompactSizeError::InsufficientData { length: (bytes@.len() - offset - 1) as usize }),
        offset >= bytes@.len() ==> result == Err::<CompactSizeValue, ReadCompactSizeError>(
            ReadCompactSizeError::InsufficientData { length: 0 },
        ),
        result matches Ok(size) ==> size.consumed == 1 + compact_size_width(bytes@[offset as int])
            && offset + size.consumed <= bytes@.len(),
{
    if offset >= bytes.len() {
        return Err(ReadCompactSizeError::InsufficientData { length: 0 });
    }
    let head: u8 = bytes[offset];
    let tail = vstd::slice::slice_subrange(bytes, offset + 1, bytes.len());
    match read_compact_size(head, tail) {
        Ok(value) => {
            let consumed: usize = if head <= 252 {
                1
            } else if head == 253 {
                3
            } else if head == 254 {
                5
            } else {
                9
            };
            Ok(CompactSizeValue { value, consumed })
        },
        Err(error) => Err(error),
    }
}

/// Decoding the shortest encoding of a value gives the value back and takes
/// exactly the bytes of the encoding, whatever follows them in the buffer.
pub proof fn lemma_compact_size_round_trip(value: u64, rest: Seq<u8>)
    ensures
        1 <= compact_size_encoding(value).len() <= 9,
        compact_size_from(compact_size_encoding(value) + rest, 0) == Ok::<
            CompactSizeValue,
            ReadCompactSizeError,
        >(CompactSizeValue { value, consumed: compact_size_encoding(value).len() as usize }),
{
    let encoding = compact_size_encoding(value);
    let bytes = encoding + rest;
    let head = encoding[0];
    let width = compact_size_width(head);
    let digits = be_bytes(value as nat, width);
    lemma_be_round_trip(value as nat, width);
    lemma_pow256_values();
    assert(encoding == seq![head] + digits);
    assert(bytes[0] == head);
    if width > 0 {
        let tail = bytes.subrange(1, bytes.len() as int);
        assert(tail.subrange(0, width as int) == digits);
        assert(value < pow256(width));
        vstd::arithmetic::div_mod::lemma_small_mod(value as nat, pow256(width));
    }
}

/// Encodes `value` in the shortest compact-size form.
pub fn encode_compact_size(value: u64) -> (bytes: Vec<u8>)
    ensures
        bytes@ == compact_size_encoding(value),
{
    let mut bytes: Vec<u8> = Vec::new();
    if value <= 252 {
        bytes.push(value as u8);
    } else if value <= 0xFFFF {
        bytes.push(253);
        push_be(&mut bytes, value, 2);
    } else if value <= 0xFFFF_FFFF {
        bytes.push(254);
        push_be(&mut bytes, value, 4);
    } else {
        bytes.push(255);
        push_be(&mut bytes, value, 8);
    }
    bytes
}

} // verus!
