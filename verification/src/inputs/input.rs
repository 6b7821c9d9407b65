//! The inputs of a transaction, one after another behind their count.

use vstd::prelude::*;
use vstd::slice::slice_subrange;
use crate::bytes::TransactionData;
use crate::hex::{encode_bytes, hex_text};
use crate::inputs::compact_size::{
    compact_size_at, compact_size_from, compact_size_width, CompactSizeValue,
};
use crate::inputs::errors::{ReadCompactSizeError, ReadInputsError, ReadInputsLengthError};
use crate::integers::{le_value, read_le_u32};

verus! {

/// One input: the output it spends, the script that unlocks it, and its
/// sequence number.
#[derive(Debug, Clone, PartialEq, Eq)]
pub struct Input {
    /// The id of the transaction that holds the spent output: the 32 bytes
    /// of the buffer in reverse order, in hexadecimal.
    pub txid: String,
    /// The position of the spent output in that transaction.
    pub output_index: u32,
    /// The unlocking script, in hexadecimal.
    pub script_sig: String,
    pub sequence: u32,
}

/// An input as a mathematical value, its two texts as sequences of
/// characters.
pub struct InputView {
    pub txid: Seq<char>,
    pub output_index: u32,
    pub script_sig: Seq<char>,
    pub sequence: u32,
}

impl View for Input {
    type V = InputView;

    open spec fn view(&self) -> InputView {
        InputView {
            txid: self.txid@,
            output_index: self.output_index,
            script_sig: self.script_sig@,
            sequence: self.sequence,
        }
    }
}

/// The number of inputs that a transaction declares.
pub type InputsLength = u64;

/// Where the count of the inputs starts: right behind the version.
pub const INPUT_LENGTH_POSITION: usize = 4;

/// The views of a list of inputs, in the list's order.
pub open spec fn input_views(inputs: Seq<Input>) -> Seq<InputView> {
    inputs.map_values(|input: Input| input@)
}

/// The input that starts at `at` in `bytes`, and the position right behind
/// it; `None` where the buffer ends before the input does.
///
/// An input is 32 bytes of transaction id, 4 bytes of output index, a
/// compact-size script length, that many bytes of script, and 4 bytes of
/// sequence number.
pub open spec fn input_from(bytes: Seq<u8>, at: int) -> Option<(InputView, int)> {
    if at + 36 > bytes.len() {
        None
    } else {
        match compact_size_from(bytes, at + 36) {
            Err(_) => None,
            Ok(size) => {
                let script = at + 36 + size.consumed;
                let end = script + size.value;
                if end + 4 > bytes.len() {
                    None
                } else {
                    Some(
                        (
                            InputView {
                                txid: hex_text(bytes.subrange(at, at + 32).reverse()),
                                output_index: le_value(bytes.subrange(at + 32, at + 36)) as u32,
                                script_sig: hex_text(bytes.subrange(script, end)),
                                sequence: le_value(bytes.subrange(end, end + 4)) as u32,
                            },
                            end + 4,
                        ),
                    )
                }
            },
        }
    }
}

/// The `count` inputs that lie one behind the other from `at` on in `bytes`;
/// `None` where the buffer ends before the last of them does.
pub open spec fn inputs_from(bytes: Seq<u8>, at: int, count: nat) -> Option<Seq<InputView>>
    decreases count,
{
    if count == 0 {
        Some(Seq::empty())
    } else {
        match input_from(bytes, at) {
            None => None,
            Some((first, next)) => match inputs_from(bytes, next, (count - 1) as nat) {
                None => None,
                Some(rest) => Some(seq![first] + rest),
            },
        }
    }
}

/// The inputs of the transaction `bytes`: as many as the compact size behind
/// the version says, or the error that decoding them ends in.
pub open spec fn inputs_of(bytes: Seq<u8>) -> Result<Seq<InputView>, ReadInputsError> {
    match compact_size_from(bytes, INPUT_LENGTH_POSITION as int) {
        Err(error) => Err(ReadInputsError::InvalidData(error)),
        Ok(count) => match inputs_from(
            bytes,
            INPUT_LENGTH_POSITION + count.consumed,
            count.value as nat,
        ) {
            None => Err(ReadInputsError::DataCorruption),
            Some(inputs) => Ok(inputs),
        },
    }
}

/// The number of inputs that the transaction `bytes` declares: the value of
/// the compact size right behind the version, or the error of reading it.
pub open spec fn inputs_length_of(bytes: Seq<u8>) -> Result<InputsLength, ReadInputsLengthError> {
    match compact_size_from(bytes, INPUT_LENGTH_POSITION as int) {
        Ok(size) => Ok(size.value),
        Err(error) => Err(error),
    }
}

/// Whether `result` is what decoding the inputs of `bytes` gives.
pub open spec fn is_inputs_of(bytes: Seq<u8>, result: Result<Vec<Input>, ReadInputsError>) -> bool {
    match result {
        Ok(inputs) => inputs_of(bytes) == Ok::<Seq<InputView>, ReadInputsError>(
            input_views(inputs@),
        ),
        Err(error) => inputs_of(bytes) == Err::<Seq<InputView>, ReadInputsError>(error),
    }
}

/// Whether the first input of `bytes` declares a script longer than the
/// bytes that are left behind the script's length.
pub open spec fn first_script_overruns(bytes: Seq<u8>) -> bool {
    &&& compact_size_from(bytes, INPUT_LENGTH_POSITION as int) matches Ok(count)
    &&& count.value >= 1
    &&& compact_size_from(bytes, INPUT_LENGTH_POSITION + count.consumed + 36) matches Ok(size)
    &&& INPUT_LENGTH_POSITION + count.consumed + 36 + size.consumed + size.value > bytes.len()
}

/// A buffer whose first input declares a script longer than the bytes left
/// for it does not decode: the error is `DataCorruption`, and no input
/// comes out.
pub proof fn lemma_overlong_script_is_corruption(bytes: Seq<u8>)
    requires
        first_script_overruns(bytes),
    ensures
        inputs_of(bytes) == Err::<Seq<InputView>, ReadInputsError>(ReadInputsError::DataCorruption),
{
}

/// Where `count` inputs decode, there are `count` of them.
pub proof fn lemma_inputs_from_length(bytes: Seq<u8>, at: int, count: nat)
    ensures
        inputs_from(bytes, at, count) matches Some(inputs) ==> inputs.len() == count,
    decreases count,
{
    if count > 0 {
        if let Some((_, next)) = input_from(bytes, at) {
            lemma_inputs_from_length(bytes, next, (count - 1) as nat);
        }
    }
}

/// Decoding the inputs of one buffer twice gives the same inputs, field for
/// field, or the same error.
pub proof fn lemma_inputs_are_repeatable(
    bytes: Seq<u8>,
    first: Result<Vec<Input>, ReadInputsError>,
    second: Result<Vec<Input>, ReadInputsError>,
)
    requires
        is_inputs_of(bytes, first),
        is_inputs_of(bytes, second),
    ensures
        match (first, second) {
            (Ok(one), Ok(other)) => input_views(one@) == input_views(other@),
            (Err(one), Err(other)) => one == other,
            _ => false,
        },
{
}

/// A copy of the `length` bytes of `bytes` from `start` on, last byte first.
fn reversed(bytes: &[u8], start: usize, length: usize) -> (copy: Vec<u8>)
    requires
        start + length <= bytes.len(),
    ensures
        copy@ == bytes@.subrange(start as int, start + length).reverse(),
{
    let mut copy: Vec<u8> = Vec::new();
    let mut left: usize = length;
    while left > 0
        invariant
            left <= length,
            start + length <= bytes.len(),
            copy@.len() == length - left,
            forall|i: int| 0 <= i < copy@.len() ==> copy@[i] == bytes@[start + length - 1 - i],
        decreases left,
    {
        left = left - 1;
        copy.push(bytes[start + left]);
    }
    copy
}

/// Decodes the input that starts at `at` in `bytes`, and says where the
/// next one starts.
///
/// Fails with `DataCorruption`, and gives no part of an input, exactly where
/// the buffer ends before the input does: before its 36 fixed bytes, inside
/// the script length, inside the script, or inside the sequence number.
pub fn read_input(bytes: &[u8], at: usize) -> (result: Result<(Input, usize), ReadInputsError>)
    ensures
        match result {
            Ok((input, next)) => input_from(bytes@, at as int) == Some((input@, next as int)),
            Err(error) => error == ReadInputsError::DataCorruption && input_from(
                bytes@,
                at as int,
            ) is None,
        },
{
    let total: usize = bytes.len();
    if at > total || total - at < 36 {
        return Err(ReadInputsError::DataCorruption);
    }
    let id = reversed(bytes, at, 32);
    let txid = encode_bytes(id.as_slice());
    let output_index: u32 = read_le_u32(bytes, at + 32);
    let size = match compact_size_at(bytes, at + 36) {
        Ok(size) => size,
        Err(_) => {
            return Err(ReadInputsError::DataCorruption);
        },
    };
    let script: usize = at + 36 + size.consumed;
    let left: usize = total - script;
    if size.value > left as u64 {
        return Err(ReadInputsError::DataCorruption);
    }
    let end: usize = script + size.value as usize;
    if total - end < 4 {
        return Err(ReadInputsError::DataCorruption);
    }
    let script_sig = encode_bytes(slice_subrange(bytes, script, end));
    let sequence: u32 = read_le_u32(bytes, end);
    Ok((Input { txid, output_index, script_sig, sequence }, end + 4))
}

/// Decodes the inputs of a transaction.
///
/// The count is the compact size right behind the version. Where it cannot
/// be read, the error is `InvalidData` around the reader's error. The
/// inputs follow the count one behind the other. Where the buffer ends
/// before the last declared input does, the error is `DataCorruption` and
/// no input is returned. Memory is taken only for inputs that were decoded,
/// never for the declared count.
pub fn from(tx_bytes: &TransactionData) -> (result: Result<Vec<Input>, ReadInputsError>)
    ensures
        is_inputs_of(tx_bytes@, result),
{
    let bytes = tx_bytes.as_slice();
    let count = match compact_size_at(bytes, INPUT_LENGTH_POSITION) {
        Ok(count) => count,
        Err(error) => {
            return Err(ReadInputsError::InvalidData(error));
        },
    };
    let ghost start: int = INPUT_LENGTH_POSITION + count.consumed;
    let mut inputs: Vec<Input> = Vec::new();
    let mut position: usize = INPUT_LENGTH_POSITION + count.consumed;
    let mut read: u64 = 0;
    proof {
        let all = inputs_from(bytes@, start, count.value as nat);
        if all is Some {
            assert(input_views(inputs@) + all->0 == all->0);
        }
    }
    while read < count.value
        invariant
            bytes@ == tx_bytes@,
            compact_size_from(bytes@, INPUT_LENGTH_POSITION as int) == Ok::<
                CompactSizeValue,
                ReadCompactSizeError,
            >(count),
            start == INPUT_LENGTH_POSITION + count.consumed,
            read <= count.value,
            inputs_from(bytes@, start, count.value as nat) == match inputs_from(
                bytes@,
                position as int,
                (count.value - read) as nat,
            ) {
                None => None::<Seq<InputView>>,
                Some(rest) => Some(input_views(inputs@) + rest),
            },
        decreases count.value - read,
    {
        let ghost before = input_views(inputs@);
        let ghost remaining = (count.value - read) as nat;
        match read_input(bytes, position) {
            Err(error) => {
                return Err(error);
            },
            Ok((input, next)) => {
                proof {
                    let rest = inputs_from(bytes@, next as int, (remaining - 1) as nat);
                    if rest is Some {
                        assert(before.push(input@) + rest->0 == before + (seq![input@] + rest->0));
                    }
                    assert(input_views(inputs@.push(input)) == before.push(input@));
                }
                inputs.push(input);
                position = next;
            },
        }
        read = read + 1;
    }
    proof {
        assert(input_views(inputs@) + Seq::<InputView>::empty() == input_views(inputs@));
    }
    Ok(inputs)
}

/// Reads the number of inputs that a transaction declares: the compact
/// size that starts at its fifth byte.
///
/// Fails with `InsufficientData` exactly where the buffer has no fifth byte
/// (no bytes are left for the count) or ends before the bytes that the
/// fifth byte announces (the error reports how many follow it).
pub fn length(tx_bytes: &TransactionData) -> (result: Result<InputsLength, ReadInputsLengthError>)
    ensures
        result == inputs_length_of(tx_bytes@),
        tx_bytes@.len() <= INPUT_LENGTH_POSITION ==> result == Err::<
            InputsLength,
            ReadInputsLengthError,
        >(ReadCompactSizeError::InsufficientData { length: 0 }),
        result is Err <==> tx_bytes@.len() <= INPUT_LENGTH_POSITION || tx_bytes@.len()
            - INPUT_LENGTH_POSITION - 1 < compact_size_width(
            tx_bytes@[INPUT_LENGTH_POSITION as int],
        ),
        result matches Err(error) ==> error is InsufficientData,
{
    match compact_size_at(tx_bytes.as_slice(), INPUT_LENGTH_POSITION) {
        Ok(size) => Ok(size.value),
        Err(error) => Err(error),
    }
}

} // verus!
