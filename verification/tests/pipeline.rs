use scrypt_hex::errors::ErrorKind;
use scrypt_hex::scrypt;
use scrypt_hex::scrypt_with_policy;
use scrypt_hex::HexPolicy;

const RFC7914_EMPTY: &str = "77d6576238657b203b19ca42c18a0497f16b4844e3074ae8dfdffa3fede21442fcd0069ded0948f8326a753a0fc81f17e8d3e0fb2e0d3628cf35e20c38d18906";

const RFC7914_PASSWORD_NACL: &str = "fdbabe1c9d3472007856e7190d01e9fe7c6ad7cbc8237830e77376634b3731622eaf30d92e22a3886ff109279d9830dac727afb94a83ee6d8360cbdfa2cc0640";

#[test]
fn rfc7914_vector_empty_inputs() {
    let out = scrypt("", "", 16, 1, 1, 64).unwrap();
    assert_eq!(out.len(), 128);
    assert_eq!(out, RFC7914_EMPTY);
}

#[test]
fn rfc7914_vector_password_nacl() {
    // password = "password", salt = "NaCl", hex-encoded.
    let out = scrypt("70617373776f7264", "4e61436c", 1024, 8, 16, 64).unwrap();
    assert_eq!(out, RFC7914_PASSWORD_NACL);
}

#[test]
fn output_is_lowercase_hex_of_double_length() {
    let out = scrypt("ab", "cd", 16, 1, 1, 24).unwrap();
    assert_eq!(out.len(), 48);
    assert!(out.chars().all(|c| c.is_ascii_digit() || ('a'..='f').contains(&c)));
}

#[test]
fn identical_calls_agree() {
    let a = scrypt("0102", "0304", 16, 1, 1, 32).unwrap();
    let b = scrypt("0102", "0304", 16, 1, 1, 32).unwrap();
    assert_eq!(a, b);
}

#[test]
fn hex_case_of_inputs_does_not_matter() {
    let lower = scrypt("deadbeef", "c0ffee", 16, 1, 1, 32).unwrap();
    let upper = scrypt("DEADBEEF", "C0FFEE", 16, 1, 1, 32).unwrap();
    assert_eq!(lower, upper);
}

#[test]
fn strict_policy_rejects_malformed_hex() {
    assert_eq!(scrypt("zz", "", 16, 1, 1, 32), Err(ErrorKind::InvalidEncoding));
    assert_eq!(scrypt("", "abc", 16, 1, 1, 32), Err(ErrorKind::InvalidEncoding));
}

#[test]
fn lenient_policy_zero_fills_malformed_hex() {
    let substituted = scrypt_with_policy(HexPolicy::Lenient, "zz", "", 16, 1, 1, 32).unwrap();
    let zero_byte = scrypt_with_policy(HexPolicy::Lenient, "00", "", 16, 1, 1, 32).unwrap();
    assert_eq!(substituted, zero_byte);
    // A trailing unpaired character is dropped.
    let dropped = scrypt_with_policy(HexPolicy::Lenient, "ab1", "", 16, 1, 1, 32).unwrap();
    let paired = scrypt_with_policy(HexPolicy::Lenient, "ab", "", 16, 1, 1, 32).unwrap();
    assert_eq!(dropped, paired);
}

#[test]
fn non_power_of_two_n_is_rejected() {
    assert_eq!(scrypt("", "", 100000, 8, 1, 32), Err(ErrorKind::InvalidParams));
}

#[test]
fn zero_dklen_is_rejected() {
    assert_eq!(scrypt("", "", 16, 1, 1, 0), Err(ErrorKind::InvalidParams));
}

#[test]
fn matches_reference_scrypt_crate() {
    // The same derivation performed directly through the scrypt crate.
    let params = scrypt::Params::new(4, 1, 1).unwrap();
    let mut expected = [0u8; 32];
    scrypt::scrypt(&[0xde, 0xad], &[0xbe, 0xef], &params, &mut expected).unwrap();
    let expected_hex: String = expected.iter().map(|b| format!("{b:02x}")).collect();
    let out = scrypt("dead", "beef", 16, 1, 1, 32).unwrap();
    assert_eq!(out, expected_hex);
}
