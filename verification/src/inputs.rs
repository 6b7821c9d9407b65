//! The input list of a transaction and the compact-size integers inside it.

pub mod compact_size;
pub mod errors;
pub mod input;

pub use self::compact_size::{
    compact_size_at, encode_compact_size, read_compact_size, CompactSizeValue,
};
pub use self::errors::{ReadCompactSizeError, ReadInputsError, ReadInputsLengthError};
pub use self::input::{
    from, length, read_input, Input, InputView, InputsLength, INPUT_LENGTH_POSITION,
};
