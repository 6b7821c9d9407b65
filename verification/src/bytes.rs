//! The raw bytes of a transaction, and the decoders as methods on them.

use vstd::prelude::*;
use crate::inputs::errors::{ReadCompactSizeError, ReadInputsError};
use crate::inputs::input::{inputs_length_of, is_inputs_of, Input, InputsLength};
use crate::version::{version_of, ReadVersionError};

verus! {

/// The encoded transaction, byte for byte.
pub type TransactionData = Vec<u8>;

/// The decoders of the single fields, on a value that holds the bytes of a
/// transaction.
pub trait TransactionBytesTrait {
    /// The bytes that the methods decode.
    spec fn raw_bytes(&self) -> Seq<u8>;

    /// The version: the first four bytes, little-endian.
    fn version(&self) -> (result: Result<u32, ReadVersionError>)
        ensures
            result == version_of(self.raw_bytes()),
    ;

    /// The number of inputs that the bytes declare: the compact size behind
    /// the version, or the error of reading it.
    fn length(&self) -> (result: Result<InputsLength, ReadCompactSizeError>)
        ensures
            result == inputs_length_of(self.raw_bytes()),
    ;

    /// The inputs, in the order of the bytes.
    fn inputs(&self) -> (result: Result<Vec<Input>, ReadInputsError>)
        ensures
            is_inputs_of(self.raw_bytes(), result),
    ;
}

impl TransactionBytesTrait for TransactionData {
    open spec fn raw_bytes(&self) -> Seq<u8> {
        self@
    }

    fn version(&self) -> (result: Result<u32, ReadVersionError>) {
        crate::version::from(self)
    }

    fn length(&self) -> (result: Result<InputsLength, ReadCompactSizeError>) {
        crate::inputs::input::length(self)
    }

    fn inputs(&self) -> (result: Result<Vec<Input>, ReadInputsError>) {
        crate::inputs::input::from(self)
    }
}

} // verus!
