use vstd::prelude::*;

verus! {

/// Why a text could not be turned into the bytes of a transaction.
#[derive(Debug, Clone, PartialEq, Eq)]
pub enum TransactionHexError {
    /// The text is not hexadecimal; the string says what is wrong with it.
    InvalidHexData(String),
}

impl TransactionHexError {
    /// The error in words.
    pub open spec fn message(self) -> Seq<char> {
        match self {
            TransactionHexError::InvalidHexData(reason) => "Failed to decode transaction's data: "@
                + reason@,
        }
    }

    /// Says in words what went wrong.
    pub fn to_string(&self) -> (text: String)
        ensures
            text@ == self.message(),
    {
        match self {
            TransactionHexError::InvalidHexData(reason) => {
                let mut text = String::from_str("Failed to decode transaction's data: ");
                text.append(reason.as_str());
                text
            },
        }
    }
}

} // verus!
