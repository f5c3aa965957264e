use scrypt_hex::codec::decode_lenient;
use scrypt_hex::codec::decode_strict;
use scrypt_hex::codec::encode;
use scrypt_hex::errors::ErrorKind;

#[test]
fn encode_empty() {
    let bytes: Vec<u8> = Vec::new();
    assert_eq!(encode(&bytes), "");
}

#[test]
fn encode_is_lowercase_and_double_length() {
    let bytes: Vec<u8> = vec![0x00, 0x0f, 0x10, 0xab, 0xff];
    let hex = encode(&bytes);
    assert_eq!(hex, "000f10abff");
    assert_eq!(hex.len(), 2 * bytes.len());
    assert!(hex.chars().all(|c| c.is_ascii_digit() || ('a'..='f').contains(&c)));
}

#[test]
fn round_trip_lenient() {
    let bytes: Vec<u8> = (0u8..=255).collect();
    let hex = encode(&bytes);
    assert_eq!(decode_lenient(&hex), bytes);
}

#[test]
fn round_trip_strict() {
    let bytes: Vec<u8> = vec![0xde, 0xad, 0xbe, 0xef, 0x00, 0x7f];
    let hex = encode(&bytes);
    assert_eq!(decode_strict(&hex), Ok(bytes));
}

#[test]
fn decode_accepts_both_cases() {
    let lower = decode_lenient("deadbeef");
    let upper = decode_lenient("DEADBEEF");
    let mixed = decode_lenient("DeAdBeEf");
    assert_eq!(lower, vec![0xde, 0xad, 0xbe, 0xef]);
    assert_eq!(upper, lower);
    assert_eq!(mixed, lower);
    assert_eq!(decode_strict("DEADBEEF"), Ok(lower));
}

#[test]
fn decode_lenient_zero_fills_bad_pairs() {
    assert_eq!(decode_lenient("zz41"), vec![0x00, 0x41]);
    assert_eq!(decode_lenient("4g"), vec![0x00]);
}

#[test]
fn decode_lenient_drops_trailing_character() {
    assert_eq!(decode_lenient("abc"), vec![0xab]);
    assert_eq!(decode_lenient("a"), Vec::<u8>::new());
}

#[test]
fn decode_strict_rejects_odd_length() {
    assert_eq!(decode_strict("abc"), Err(ErrorKind::InvalidEncoding));
    assert_eq!(decode_strict("a"), Err(ErrorKind::InvalidEncoding));
}

#[test]
fn decode_strict_rejects_non_hex_characters() {
    assert_eq!(decode_strict("zz41"), Err(ErrorKind::InvalidEncoding));
    assert_eq!(decode_strict("12 4"), Err(ErrorKind::InvalidEncoding));
}

#[test]
fn decode_empty() {
    assert_eq!(decode_lenient(""), Vec::<u8>::new());
    assert_eq!(decode_strict(""), Ok(Vec::<u8>::new()));
}
