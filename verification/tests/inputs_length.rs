use txx::inputs::{length, InputsLength, ReadCompactSizeError};

struct TestCase {
    input: Vec<u8>,
    expected: Result<InputsLength, ReadCompactSizeError>,
}

#[test]
fn test_tx_length() {
    let test_cases = vec![
        // Test with inputs of varying sizes
        TestCase {
            input: vec![0, 0, 0, 0, 3], // compact size is 3
            expected: Ok(3),
        },
        TestCase {
            input: vec![0, 0, 0, 0, 253, 0, 1], // compact size is 253, next is 1 (u16)
            expected: Ok(1),
        },
        TestCase {
            input: vec![0, 0, 0, 0, 254, 0, 0, 0, 1], // compact size is 254, next is 1 (u32)
            expected: Ok(1),
        },
        TestCase {
            input: vec![0, 0, 0, 0, 255, 0, 0, 0, 0, 0, 0, 0, 1], // compact size is 255, followed by 8 bytes for u64 (value: 1)
            expected: Ok(1),
        },
        TestCase {
            input: vec![0, 0, 0, 0, 253], // insufficient data for 253
            expected: Err(ReadCompactSizeError::InsufficientData { length: 0 }),
        },
        TestCase {
            input: vec![0, 0, 0, 0], // not enough data to extract anything
            expected: Err(ReadCompactSizeError::InsufficientData { length: 0 }),
        },
    ];

    for case in test_cases {
        let result = length(&case.input);
        assert_eq! {result, case.expected, "Failed for input: {:?}", case.input};
    }
}
