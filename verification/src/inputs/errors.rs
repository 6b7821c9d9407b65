use vstd::prelude::*;
use crate::decimal::{decimal, decimal_text};
use crate::inputs::input::INPUT_LENGTH_POSITION;

verus! {

/// Why the input list of a buffer could not be decoded.
#[derive(Debug, Clone, Copy, PartialEq, Eq, Structural)]
pub enum ReadInputsError {
    /// The number of inputs could not be read.
    InvalidData(ReadCompactSizeError),
    /// The buffer ends before the inputs it declares.
    DataCorruption,
}

/// Why the number of inputs could not be read.
pub type ReadInputsLengthError = ReadCompactSizeError;

/// Why a compact-size integer could not be read.
#[derive(Debug, Clone, Copy, PartialEq, Eq, Structural)]
pub enum ReadCompactSizeError {
    /// The buffer ends before the integer does; `length` bytes were left to
    /// read it from.
    InsufficientData { length: usize },
    /// The bytes cannot be turned into an integer of the declared width.
    DataCorruption,
}

impl ReadInputsError {
    /// The error in words.
    pub open spec fn message(self) -> Seq<char> {
        match self {
            ReadInputsError::InvalidData(error) => "Failed to define input's length: "@
                + error.message(),
            ReadInputsError::DataCorruption =>
                "Transaction data is corrupted or contains invalid byte sequences."@,
        }
    }

    /// Says in words what went wrong.
    pub fn to_string(&self) -> (text: String)
        ensures
            text@ == self.message(),
    {
        match self {
            ReadInputsError::InvalidData(error) => {
                let mut text = String::from_str("Failed to define input's length: ");
                text.append(error.to_string().as_str());
                text
            },
            ReadInputsError::DataCorruption => String::from_str(
                "Transaction data is corrupted or contains invalid byte sequences.",
            ),
        }
    }
}

impl ReadCompactSizeError {
    /// The error in words.
    pub open spec fn message(self) -> Seq<char> {
        match self {
            ReadCompactSizeError::InsufficientData { length } =>
                "Transaction data is too short to extract the inputs' length (length: "@
                    + decimal_text(length as nat) + ", should be at least "@ + decimal_text(
                    (INPUT_LENGTH_POSITION + 1) as nat,
                ) + ")"@,
            ReadCompactSizeError::DataCorruption =>
                "Transaction data is corrupted or contains invalid byte sequences."@,
        }
    }

    /// Says in words what went wrong.
    pub fn to_string(&self) -> (text: String)
        ensures
            text@ == self.message(),
    {
        match self {
            ReadCompactSizeError::InsufficientData { length } => {
                let mut text = String::from_str(
                    "Transaction data is too short to extract the inputs' length (length: ",
                );
                text.append(decimal(*length).as_str());
                text.append(", should be at least ");
                text.append(decimal(INPUT_LENGTH_POSITION + 1).as_str());
                text.append(")");
                text
            },
            ReadCompactSizeError::DataCorruption => String::from_str(
                "Transaction data is corrupted or contains invalid byte sequences.",
            ),
        }
    }
}

} // verus!
