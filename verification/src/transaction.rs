//! A whole transaction: the version, the declared number of inputs, and the
//! inputs.

use vstd::prelude::*;
use crate::bytes::TransactionData;
use crate::errors::TransactionHexError;
use crate::hex::{hex_bytes, hex_failure_text, is_hex_text};
use crate::inputs::errors::{ReadInputsError, ReadInputsLengthError};
use crate::inputs::compact_size::compact_size_from;
use crate::inputs::input::{
    input_views, inputs_length_of, inputs_of, lemma_inputs_from_length, Input, InputView,
    InputsLength, INPUT_LENGTH_POSITION,
};
use crate::version::{version_of, ReadVersionError};

verus! {

/// A decoded transaction.
#[derive(Debug, Clone, PartialEq, Eq)]
pub struct Transaction {
    pub version: u32,
    /// The number of inputs as the bytes declare it.
    pub inputs_count: InputsLength,
    /// The inputs, in the order of the bytes.
    pub inputs: Vec<Input>,
}

/// A transaction as a mathematical value.
pub struct TransactionView {
    pub version: u32,
    pub inputs_count: InputsLength,
    pub inputs: Seq<InputView>,
}

impl View for Transaction {
    type V = TransactionView;

    open spec fn view(&self) -> TransactionView {
        TransactionView {
            version: self.version,
            inputs_count: self.inputs_count,
            inputs: input_views(self.inputs@),
        }
    }
}

/// Why a transaction could not be decoded: the error of the step that
/// failed.
#[derive(Debug, Clone, PartialEq, Eq)]
pub enum TransactionError {
    /// The text is not hexadecimal.
    Hex(TransactionHexError),
    /// The version could not be read.
    Version(ReadVersionError),
    /// The number of inputs could not be read.
    InputsLength(ReadInputsLengthError),
    /// The inputs could not be read.
    Inputs(ReadInputsError),
}

impl TransactionError {
    /// The error in words: those of the step that failed.
    pub open spec fn message(self) -> Seq<char> {
        match self {
            TransactionError::Hex(error) => error.message(),
            TransactionError::Version(error) => error.message(),
            TransactionError::InputsLength(error) => error.message(),
            TransactionError::Inputs(error) => error.message(),
        }
    }

    /// Says in words what went wrong.
    pub fn to_string(&self) -> (text: String)
        ensures
            text@ == self.message(),
    {
        match self {
            TransactionError::Hex(error) => error.to_string(),
            TransactionError::Version(error) => error.to_string(),
            TransactionError::InputsLength(error) => error.to_string(),
            TransactionError::Inputs(error) => error.to_string(),
        }
    }
}

/// The transaction that `bytes` encode, or the error of the first step that
/// fails: the version, then the number of inputs, then the inputs.
pub open spec fn transaction_of(bytes: Seq<u8>) -> Result<TransactionView, TransactionError> {
    match version_of(bytes) {
        Err(error) => Err(TransactionError::Version(error)),
        Ok(version) => match inputs_length_of(bytes) {
            Err(error) => Err(TransactionError::InputsLength(error)),
            Ok(inputs_count) => match inputs_of(bytes) {
                Err(error) => Err(TransactionError::Inputs(error)),
                Ok(inputs) => Ok(TransactionView { version, inputs_count, inputs }),
            },
        },
    }
}

/// Whether `result` is what decoding the transaction `bytes` gives.
pub open spec fn is_transaction_of(
    bytes: Seq<u8>,
    result: Result<Transaction, TransactionError>,
) -> bool {
    match result {
        Ok(transaction) => transaction_of(bytes) == Ok::<TransactionView, TransactionError>(
            transaction@,
        ),
        Err(error) => transaction_of(bytes) == Err::<TransactionView, TransactionError>(error),
    }
}

/// Decoding one buffer twice gives the same transaction, field for field,
/// or the same error.
pub proof fn lemma_decoding_is_repeatable(
    bytes: Seq<u8>,
    first: Result<Transaction, TransactionError>,
    second: Result<Transaction, TransactionError>,
)
    requires
        is_transaction_of(bytes, first),
        is_transaction_of(bytes, second),
    ensures
        match (first, second) {
            (Ok(one), Ok(other)) => {
                &&& one.version == other.version
                &&& one.inputs_count == other.inputs_count
                &&& one.inputs@.len() == other.inputs@.len()
                &&& forall|i: int|
                    0 <= i < one.inputs@.len() ==> (#[trigger] one.inputs@[i])@ == other.inputs@[i]@
            },
            (Err(one), Err(other)) => one == other,
            _ => false,
        },
{
    if let (Ok(one), Ok(other)) = (first, second) {
        let views = input_views(one.inputs@);
        assert(views == input_views(other.inputs@));
        assert(one.inputs@.len() == views.len() == other.inputs@.len());
        assert forall|i: int| 0 <= i < one.inputs@.len() implies (#[trigger] one.inputs@[i])@
            == other.inputs@[i]@ by {
            assert(one.inputs@[i]@ == views[i]);
            assert(other.inputs@[i]@ == input_views(other.inputs@)[i]);
        }
    }
}

/// A decoded transaction holds as many inputs as its bytes declare.
pub proof fn lemma_count_is_number_of_inputs(bytes: Seq<u8>)
    ensures
        transaction_of(bytes) matches Ok(transaction) ==> transaction.inputs.len()
            == transaction.inputs_count,
{
    if let Ok(count) = compact_size_from(bytes, INPUT_LENGTH_POSITION as int) {
        lemma_inputs_from_length(
            bytes,
            INPUT_LENGTH_POSITION + count.consumed,
            count.value as nat,
        );
    }
}

/// Decodes a transaction from its bytes.
///
/// The version, the number of inputs and the inputs are read in this order,
/// each from the whole buffer. The first of them to fail decides the
/// error, and no part of a transaction is returned then.
pub fn from(tx_bytes: &TransactionData) -> (result: Result<Transaction, TransactionError>)
    ensures
        is_transaction_of(tx_bytes@, result),
        result matches Ok(transaction) ==> transaction.inputs@.len() == transaction.inputs_count,
{
    proof {
        lemma_count_is_number_of_inputs(tx_bytes@);
    }
    let version: u32 = match crate::version::from(tx_bytes) {
        Ok(version) => version,
        Err(error) => {
            return Err(TransactionError::Version(error));
        },
    };
    let inputs_count: InputsLength = match crate::inputs::input::length(tx_bytes) {
        Ok(length) => length,
        Err(error) => {
            return Err(TransactionError::InputsLength(error));
        },
    };
    let inputs = match crate::inputs::input::from(tx_bytes) {
        Ok(inputs) => inputs,
        Err(error) => {
            return Err(TransactionError::Inputs(error));
        },
    };
    Ok(Transaction { version, inputs_count, inputs })
}

/// Whether `result` is what decoding the hexadecimal text `text` gives: the
/// refusal of the text, or what its bytes decode to.
pub open spec fn is_transaction_of_hex(
    text: Seq<char>,
    result: Result<Transaction, TransactionError>,
) -> bool {
    if is_hex_text(text) {
        is_transaction_of(hex_bytes(text), result)
    } else {
        result matches Err(TransactionError::Hex(TransactionHexError::InvalidHexData(reason)))
            && reason@ == hex_failure_text(text)
    }
}

/// Decoding one text twice gives the same transaction, field for field, or
/// errors that say the same.
pub proof fn lemma_decoding_hex_is_repeatable(
    text: Seq<char>,
    first: Result<Transaction, TransactionError>,
    second: Result<Transaction, TransactionError>,
)
    requires
        is_transaction_of_hex(text, first),
        is_transaction_of_hex(text, second),
    ensures
        match (first, second) {
            (Ok(one), Ok(other)) => {
                &&& one.version == other.version
                &&& one.inputs_count == other.inputs_count
                &&& one.inputs@.len() == other.inputs@.len()
                &&& forall|i: int|
                    0 <= i < one.inputs@.len() ==> (#[trigger] one.inputs@[i])@ == other.inputs@[i]@
            },
            (Err(one), Err(other)) => one.message() == other.message(),
            _ => false,
        },
{
    if is_hex_text(text) {
        lemma_decoding_is_repeatable(hex_bytes(text), first, second);
    }
}

/// Decodes a transaction from the hexadecimal text of its bytes.
///
/// A text that is not an even number of hexadecimal digits is refused with
/// `Hex`, around the error of decoding the text. Any other text is decoded
/// as the bytes that it spells.
pub fn from_hex(hex: &str) -> (result: Result<Transaction, TransactionError>)
    ensures
        is_transaction_of_hex(hex@, result),
        is_hex_text(hex@) ==> is_transaction_of(hex_bytes(hex@), result),
        !is_hex_text(hex@) ==> (result matches Err(
            TransactionError::Hex(TransactionHexError::InvalidHexData(reason)),
        ) && reason@ == hex_failure_text(hex@)),
{
    match crate::hex::decode(hex) {
        Ok(tx_bytes) => from(&tx_bytes),
        Err(error) => Err(TransactionError::Hex(error)),
    }
}

} // verus!
