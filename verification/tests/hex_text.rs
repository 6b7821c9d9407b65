use txx::errors::TransactionHexError;
use txx::hex::decode;

#[test]
fn decode_takes_both_cases() {
    assert_eq!(decode("0aF1"), Ok(vec![0x0a, 0xf1]));
    assert_eq!(decode("00ff10"), Ok(vec![0, 255, 16]));
    assert_eq!(decode("DEADbeef"), Ok(vec![0xde, 0xad, 0xbe, 0xef]));
}

#[test]
fn decode_of_nothing_is_nothing() {
    assert_eq!(decode(""), Ok(vec![]));
}

#[test]
fn decode_refuses_an_odd_number_of_digits() {
    assert_eq!(
        decode("abc"),
        Err(TransactionHexError::InvalidHexData("Odd number of digits".to_string())),
    );
}

#[test]
fn decode_refuses_what_is_no_digit() {
    assert_eq!(
        decode("zz"),
        Err(TransactionHexError::InvalidHexData(
            "Invalid character 'z' at position 0".to_string()
        )),
    );
    assert_eq!(
        decode("0g"),
        Err(TransactionHexError::InvalidHexData(
            "Invalid character 'g' at position 1".to_string()
        )),
    );
    assert!(matches!(decode("é"), Err(TransactionHexError::InvalidHexData(_))));
    assert!(matches!(decode("12 4"), Err(TransactionHexError::InvalidHexData(_))));
}
