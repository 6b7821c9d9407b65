use txx::errors::TransactionHexError;
use txx::inputs::{Input, ReadCompactSizeError, ReadInputsError};
use txx::version::ReadVersionError;
use txx::{from, from_hex, Transaction, TransactionError};

fn sample() -> Vec<u8> {
    let mut bytes = vec![1, 0, 0, 0, 1];
    bytes.extend(1u8..=32);
    bytes.extend_from_slice(&[0, 0, 0, 0]);
    bytes.push(0);
    bytes.extend_from_slice(&[0, 0, 0, 0]);
    bytes
}

const SAMPLE_HEX: &str = "0100000001\
0102030405060708090a0b0c0d0e0f101112131415161718191a1b1c1d1e1f20\
00000000\
00\
00000000";

const REVERSED_TXID: &str = "201f1e1d1c1b1a191817161514131211100f0e0d0c0b0a090807060504030201";

#[test]
fn version_one_without_inputs() {
    assert_eq!(
        from(&vec![1, 0, 0, 0, 0]),
        Ok(Transaction { version: 1, inputs_count: 0, inputs: vec![] }),
    );
}

#[test]
fn one_input_has_its_txid_reversed() {
    let transaction = from(&sample()).unwrap();
    assert_eq!(transaction.version, 1);
    assert_eq!(transaction.inputs_count, 1);
    assert_eq!(
        transaction.inputs,
        vec![Input {
            txid: REVERSED_TXID.to_string(),
            output_index: 0,
            script_sig: String::new(),
            sequence: 0,
        }],
    );
}

#[test]
fn bytes_behind_the_inputs_are_not_read() {
    let mut buffer = sample();
    buffer.extend_from_slice(&[1, 2, 3, 4, 5, 6, 7, 8, 9]);
    assert_eq!(from(&buffer), from(&sample()));
}

#[test]
fn count_is_the_number_of_inputs() {
    let mut buffer = vec![2, 0, 0, 0, 2];
    for index in 0u8..2 {
        buffer.extend(1u8..=32);
        buffer.extend_from_slice(&[index, 0, 0, 0]);
        buffer.extend_from_slice(&[1, 0x51]);
        buffer.extend_from_slice(&[0xff, 0xff, 0xff, 0xff]);
    }
    let transaction = from(&buffer).unwrap();
    assert_eq!(transaction.version, 2);
    assert_eq!(transaction.inputs_count, 2);
    assert_eq!(transaction.inputs.len(), 2);
    assert_eq!(transaction.inputs[1].output_index, 1);
    assert_eq!(transaction.inputs[1].script_sig, "51");
    assert_eq!(transaction.inputs[1].sequence, u32::MAX);
}

#[test]
fn short_buffer_fails_on_the_version() {
    assert_eq!(
        from(&vec![1, 0, 0]),
        Err(TransactionError::Version(ReadVersionError::InsufficientData { length: 3 })),
    );
    assert_eq!(
        from(&vec![]),
        Err(TransactionError::Version(ReadVersionError::InsufficientData { length: 0 })),
    );
}

#[test]
fn unreadable_count_fails_on_the_length() {
    assert_eq!(
        from(&vec![1, 0, 0, 0, 253, 7]),
        Err(TransactionError::InputsLength(ReadCompactSizeError::InsufficientData { length: 1 })),
    );
}

#[test]
fn version_alone_fails_on_the_length() {
    assert_eq!(
        from(&vec![1, 0, 0, 0]),
        Err(TransactionError::InputsLength(ReadCompactSizeError::InsufficientData { length: 0 })),
    );
}

#[test]
fn truncated_input_fails_as_a_whole() {
    let buffer = sample();
    for length in 5..buffer.len() {
        assert_eq!(
            from(&buffer[..length].to_vec()),
            Err(TransactionError::Inputs(ReadInputsError::DataCorruption)),
        );
    }
}

#[test]
fn decoding_twice_gives_the_same() {
    let buffer = sample();
    let first = from(&buffer);
    let second = from(&buffer);
    assert_eq!(first, second);
    let one = first.unwrap();
    let other = second.unwrap();
    assert_eq!(one.version, other.version);
    assert_eq!(one.inputs_count, other.inputs_count);
    assert_eq!(one.inputs[0].txid, other.inputs[0].txid);
    assert_eq!(one.inputs[0].output_index, other.inputs[0].output_index);
    assert_eq!(one.inputs[0].script_sig, other.inputs[0].script_sig);
    assert_eq!(one.inputs[0].sequence, other.inputs[0].sequence);
    let broken = vec![1, 0, 0, 0, 1, 2, 3];
    assert_eq!(from(&broken), from(&broken));
}

#[test]
fn from_hex_decodes_the_bytes_it_spells() {
    assert_eq!(from_hex(SAMPLE_HEX), from(&sample()));
    assert_eq!(from_hex(&SAMPLE_HEX.to_uppercase()), from(&sample()));
    assert_eq!(
        from_hex("0200000000"),
        Ok(Transaction { version: 2, inputs_count: 0, inputs: vec![] }),
    );
}

#[test]
fn from_hex_refuses_what_is_not_hexadecimal() {
    assert_eq!(
        from_hex("010"),
        Err(TransactionError::Hex(TransactionHexError::InvalidHexData(
            "Odd number of digits".to_string()
        ))),
    );
    assert_eq!(
        from_hex("01000000xy"),
        Err(TransactionError::Hex(TransactionHexError::InvalidHexData(
            "Invalid character 'x' at position 8".to_string()
        ))),
    );
}

#[test]
fn from_hex_carries_the_error_of_decode() {
    for text in ["0", "zz", "0100000g", "01 0", "é0"] {
        let refused = txx::hex::decode(text).unwrap_err();
        assert_eq!(from_hex(text), Err(TransactionError::Hex(refused)));
        assert_eq!(from_hex(text), from_hex(text));
        assert_eq!(
            from_hex(text).unwrap_err().to_string(),
            from_hex(text).unwrap_err().to_string(),
        );
    }
}

#[test]
fn from_hex_passes_decoding_errors_on() {
    assert_eq!(
        from_hex("0100"),
        Err(TransactionError::Version(ReadVersionError::InsufficientData { length: 2 })),
    );
    assert_eq!(
        from_hex(""),
        Err(TransactionError::Version(ReadVersionError::InsufficientData { length: 0 })),
    );
    assert_eq!(
        from_hex("0100000001ff"),
        Err(TransactionError::Inputs(ReadInputsError::DataCorruption)),
    );
}
