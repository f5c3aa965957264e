//! Hex-facing scrypt key derivation.
//!
//! The library converts between hexadecimal text and raw bytes, validates
//! scrypt cost parameters, and derives a key through the audited `scrypt`
//! crate, returning the key as lowercase hex.

use vstd::prelude::*;

pub mod codec;
pub mod errors;
pub mod kdf;

use crate::codec::decode_lenient;
use crate::codec::decode_of;
use crate::codec::decode_strict;
use crate::codec::encode;
use crate::codec::encode_of;
use crate::codec::valid_hex;
use crate::errors::ErrorKind;
use crate::kdf::spec_derive;
use crate::kdf::KdfParams;

verus! {

/// How malformed hex input is treated: rejected with `InvalidEncoding`,
/// or tolerated with a zero byte substituted for each malformed
/// two-character group and a trailing unpaired character dropped.
#[derive(Clone, Copy, Debug, PartialEq, Eq, Structural)]
pub enum HexPolicy {
    Strict,
    Lenient,
}

/// What the whole pipeline returns for the given policy, hex inputs and
/// parameters: decode both hex inputs, derive, and encode the key as
/// lowercase hex.
pub open spec fn spec_scrypt_hex(
    policy: HexPolicy,
    password_hex: Seq<char>,
    salt_hex: Seq<char>,
    params: KdfParams,
) -> Result<Seq<char>, ErrorKind> {
    if policy is Strict && !(valid_hex(password_hex) && valid_hex(salt_hex)) {
        Err(ErrorKind::InvalidEncoding)
    } else {
        match spec_derive(decode_of(password_hex), decode_of(salt_hex), params) {
            Ok(key) => Ok(encode_of(key)),
            Err(e) => Err(e),
        }
    }
}

/// Derive a key from hex-encoded password and salt under the chosen hex
/// policy, and return it hex-encoded in lowercase, `2 * dklen` characters
/// long. Fails with `InvalidEncoding` on malformed hex under the strict
/// policy, and with `InvalidParams` on a cost factor `n` that is not an
/// exact power of two or on `r`, `p` or `dklen` outside the supported
/// ranges.
pub fn scrypt_with_policy(
    policy: HexPolicy,
    password_hex: &str,
    salt_hex: &str,
    n: u32,
    r: u32,
    p: u32,
    dklen: usize,
) -> (res: Result<String, ErrorKind>)
    ensures
        ({
            let spec_res = spec_scrypt_hex(
                policy,
                password_hex@,
                salt_hex@,
                KdfParams { n, r, p, dklen },
            );
            &&& res matches Ok(s) ==> spec_res == Ok::<Seq<char>, ErrorKind>(s@)
            &&& res matches Err(e) ==> spec_res == Err::<Seq<char>, ErrorKind>(e)
            &&& res is Ok <==> spec_res is Ok
        }),
        res matches Ok(s) ==> s@.len() == 2 * dklen,
{
    let password = match policy {
        HexPolicy::Strict => {
            match decode_strict(password_hex) {
                Ok(v) => v,
                Err(e) => { return Err(e) },
            }
        },
        HexPolicy::Lenient => decode_lenient(password_hex),
    };
    let salt = match policy {
        HexPolicy::Strict => {
            match decode_strict(salt_hex) {
                Ok(v) => v,
                Err(e) => { return Err(e) },
            }
        },
        HexPolicy::Lenient => decode_lenient(salt_hex),
    };
    let key = match crate::kdf::derive(&password, &salt, KdfParams { n, r, p, dklen }) {
        Ok(v) => v,
        Err(e) => { return Err(e) },
    };
    Ok(encode(&key))
}

/// Derive a key from hex-encoded password and salt under the strict hex
/// policy, and return it hex-encoded in lowercase, `2 * dklen`
/// characters long.
pub fn scrypt(password_hex: &str, salt_hex: &str, n: u32, r: u32, p: u32, dklen: usize) -> (res:
    Result<String, ErrorKind>)
    ensures
        ({
            let spec_res = spec_scrypt_hex(
                HexPolicy::Strict,
                password_hex@,
                salt_hex@,
                KdfParams { n, r, p, dklen },
            );
            &&& res matches Ok(s) ==> spec_res == Ok::<Seq<char>, ErrorKind>(s@)
            &&& res matches Err(e) ==> spec_res == Err::<Seq<char>, ErrorKind>(e)
            &&& res is Ok <==> spec_res is Ok
        }),
        res matches Ok(s) ==> s@.len() == 2 * dklen,
{
    scrypt_with_policy(HexPolicy::Strict, password_hex, salt_hex, n, r, p, dklen)
}

} // verus!
