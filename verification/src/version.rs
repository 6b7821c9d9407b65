//! The version field: the first four bytes of a transaction.

use vstd::prelude::*;
use crate::decimal::{decimal, decimal_text};
use crate::integers::{le_value, lemma_le_value_of_four, read_le_u32};

verus! {

/// Why the version of a transaction could not be read.
#[derive(Debug, Clone, PartialEq, Eq)]
pub enum ReadVersionError {
    /// The buffer holds fewer than four bytes; `length` is how many it holds.
    InsufficientData { length: usize },
    /// The four bytes could not be turned into an integer.
    InvalidVersionBytes(String),
}

impl ReadVersionError {
    /// The error in words.
    pub open spec fn message(self) -> Seq<char> {
        match self {
            ReadVersionError::InsufficientData { length } =>
                "Transaction data is too short to extract the version (length: "@ + decimal_text(
                    length as nat,
                ) + ")"@,
            ReadVersionError::InvalidVersionBytes(reason) =>
                "Failed to decode version from transaction's bytes: "@ + reason@,
        }
    }

    /// Says in words what went wrong.
    pub fn to_string(&self) -> (text: String)
        ensures
            text@ == self.message(),
    {
        match self {
            ReadVersionError::InsufficientData { length } => {
                let mut text = String::from_str(
                    "Transaction data is too short to extract the version (length: ",
                );
                text.append(decimal(*length).as_str());
                text.append(")");
                text
            },
            ReadVersionError::InvalidVersionBytes(reason) => {
                let mut text = String::from_str(
                    "Failed to decode version from transaction's bytes: ",
                );
                text.append(reason.as_str());
                text
            },
        }
    }
}

/// The version that `bytes` begin with, or the error for a buffer too short
/// to hold one.
pub open spec fn version_of(bytes: Seq<u8>) -> Result<u32, ReadVersionError> {
    if bytes.len() < 4 {
        Err(ReadVersionError::InsufficientData { length: bytes.len() as usize })
    } else {
        Ok(le_value(bytes.subrange(0, 4)) as u32)
    }
}

/// Reads the version of a transaction: its first four bytes as a
/// little-endian integer. No byte after them is looked at.
///
/// A buffer of fewer than four bytes is refused, and the error reports the
/// buffer's length.
pub fn from(tx_bytes: &Vec<u8>) -> (result: Result<u32, ReadVersionError>)
    ensures
        result == version_of(tx_bytes@),
        tx_bytes@.len() < 4 ==> result == Err::<u32, ReadVersionError>(
            ReadVersionError::InsufficientData { length: tx_bytes@.len() as usize },
        ),
        tx_bytes@.len() >= 4 ==> result == Ok::<u32, ReadVersionError>(
            (tx_bytes@[0] + 0x100 * tx_bytes@[1] + 0x1_0000 * tx_bytes@[2] + 0x100_0000
                * tx_bytes@[3]) as u32,
        ),
{
    let size: usize = tx_bytes.len();
    if size < 4 {
        return Err(ReadVersionError::InsufficientData { length: size });
    }
    let version: u32 = read_le_u32(tx_bytes.as_slice(), 0);
    proof {
        lemma_le_value_of_four(tx_bytes@.subrange(0, 4));
    }
    Ok(version)
}

} // verus!
