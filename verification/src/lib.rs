//! Decoding of the legacy byte encoding of a transaction: its version, the
//! number of its inputs, and each input's previous-output reference,
//! unlocking script and sequence number.
//!
//! Every decoder is a function of the buffer alone. Its contract names the
//! value it returns, or the error, for every buffer.

pub mod bytes;
pub mod decimal;
pub mod errors;
pub mod hex;
pub mod inputs;
pub mod integers;
pub mod transaction;
pub mod version;

pub use crate::transaction::{from, from_hex, Transaction, TransactionError, TransactionView};
