//! The derivation engine: cost-parameter validation and the scrypt call.

use crate::errors::ErrorKind;
use vstd::prelude::*;

verus! {

/// 2 to the power `k`.
pub open spec fn pow2_of(k: nat) -> nat
    decreases k,
{
    if k == 0 {
        1
    } else {
        2 * pow2_of((k - 1) as nat)
    }
}

/// `n` is an exact power of two.
pub open spec fn is_pow2(n: nat) -> bool
    decreases n,
{
    if n == 0 {
        false
    } else if n == 1 {
        true
    } else {
        n % 2 == 0 && is_pow2(n / 2)
    }
}

/// The floor of the base-2 logarithm of `n` (0 for `n <= 1`).
pub open spec fn log2_of(n: nat) -> nat
    decreases n,
{
    if n <= 1 {
        0
    } else {
        1 + log2_of(n / 2)
    }
}

/// On a power of two, `log2_of` is the exact exponent.
pub proof fn lemma_pow2_log2(n: nat)
    requires
        is_pow2(n),
    ensures
        pow2_of(log2_of(n)) == n,
    decreases n,
{
    if n > 1 {
        lemma_pow2_log2(n / 2);
    }
}

/// Exact integer base-2 logarithm: `Some(k)` with `n == 2^k` when `n` is a
/// power of two, `None` otherwise. This replaces a floating-point
/// `log2`-then-truncate, which mis-rounds near large powers of two.
pub fn exact_log2(n: u32) -> (res: Option<u8>)
    ensures
        res == if is_pow2(n as nat) {
            Some(log2_of(n as nat) as u8)
        } else {
            None::<u8>
        },
        is_pow2(n as nat) ==> log2_of(n as nat) < 32,
{
    if n == 0 {
        return None;
    }
    let mut m: u32 = n;
    let mut k: u8 = 0;
    proof {
        assert(pow2_of(0) == 1);
        assert(pow2_of(0) * (n as nat) == n as nat) by (nonlinear_arith)
            requires
                pow2_of(0) == 1,
        ;
    }
    while m % 2 == 0
        invariant
            1 <= m <= n,
            is_pow2(n as nat) == is_pow2(m as nat),
            log2_of(n as nat) == log2_of(m as nat) + k,
            pow2_of(k as nat) * (m as nat) == n as nat,
            k <= 31,
        decreases m,
    {
        proof {
            assert(pow2_of((k + 1) as nat) * ((m / 2) as nat) == pow2_of(k as nat) * (
            m as nat)) by (nonlinear_arith)
                requires
                    m % 2 == 0,
                    m >= 2,
                    pow2_of((k + 1) as nat) == 2 * pow2_of(k as nat),
            ;
            if k == 31 {
                reveal_with_fuel(pow2_of, 33);
                assert(pow2_of(32) == 0x1_0000_0000);
                assert(pow2_of(32) * ((m / 2) as nat) >= 0x1_0000_0000) by (nonlinear_arith)
                    requires
                        pow2_of(32) == 0x1_0000_0000,
                        m / 2 >= 1,
                ;
            }
        }
        m = m / 2;
        k = k + 1;
    }
    if m == 1 {
        Some(k)
    } else {
        None
    }
}

/// The scrypt cost parameters and the requested output length.
#[derive(Clone, Copy, Debug, PartialEq, Eq, Structural)]
pub struct KdfParams {
    /// CPU/memory cost factor; must be an exact power of two.
    pub n: u32,
    /// Block size factor.
    pub r: u32,
    /// Parallelization factor.
    pub p: u32,
    /// Requested output length in bytes.
    pub dklen: usize,
}

/// The conditions under which `scrypt::Params::new(log_n, r, p)` returns
/// `Ok` (and performs no overflowing arithmetic): r and p positive,
/// `128 * r * 2^log_n` and `128 * r * p` within `usize`, and `r * p`
/// below 2^30. `128 * r * 2^log_n <= usize::MAX` with `r >= 1` also puts
/// `2^log_n` within `usize`, so `log_n` is below the `usize` bit width.
pub open spec fn scrypt_params_ok(log_n: u8, r: u32, p: u32) -> bool {
    &&& 1 <= r
    &&& 1 <= p
    &&& 128 * (r as nat) * pow2_of(log_n as nat) <= usize::MAX as nat
    &&& 128 * (r as nat) * (p as nat) <= usize::MAX as nat
    &&& (r as nat) * (p as nat) < 0x4000_0000
}

/// The condition under which `scrypt::scrypt` accepts an output buffer:
/// nonempty and no longer than 32 times 2^32 - 1 bytes.
pub open spec fn dklen_ok(dklen: usize) -> bool {
    &&& dklen >= 1
    &&& (dklen as nat) / 32 <= 0xffff_ffff
}

/// The scrypt derived key (RFC 7914) for the given password, salt, cost
/// parameters and output length. Left uninterpreted: the computation is
/// delegated to the audited `scrypt` crate and is a function of these
/// arguments alone.
pub uninterp spec fn scrypt_of(
    password: Seq<u8>,
    salt: Seq<u8>,
    log_n: u8,
    r: u32,
    p: u32,
    dklen: nat,
) -> Seq<u8>;

/// Relies on `scrypt::Params::new` and `scrypt::scrypt` of the `scrypt`
/// crate: under `scrypt_params_ok` the constructor returns `Ok`, and under
/// `dklen_ok` the derivation returns `Ok`, filling the whole output buffer
/// with the RFC 7914 scrypt key, a deterministic function of password,
/// salt, `log_n`, `r`, `p` and the buffer length alone.
#[verifier::external_body]
fn scrypt_call(password: &Vec<u8>, salt: &Vec<u8>, log_n: u8, r: u32, p: u32, dklen: usize) -> (out:
    Vec<u8>)
    requires
        scrypt_params_ok(log_n, r, p),
        dklen_ok(dklen),
    ensures
        out@.len() == dklen,
        out@ == scrypt_of(password@, salt@, log_n, r, p, dklen as nat),
{
    let params = scrypt::Params::new(log_n, r, p).unwrap();
    let mut out = vec![0u8; dklen];
    scrypt::scrypt(password.as_slice(), salt.as_slice(), &params, &mut out).unwrap();
    out
}

/// All parameter checks that `derive` performs: N an exact power of two,
/// and the cost parameters and output length within the ranges the
/// underlying primitive supports.
pub open spec fn derive_params_ok(params: KdfParams) -> bool {
    &&& is_pow2(params.n as nat)
    &&& scrypt_params_ok(log2_of(params.n as nat) as u8, params.r, params.p)
    &&& dklen_ok(params.dklen)
}

/// What `derive` returns: the scrypt key under valid parameters, and
/// `InvalidParams` otherwise.
pub open spec fn spec_derive(password: Seq<u8>, salt: Seq<u8>, params: KdfParams) -> Result<
    Seq<u8>,
    ErrorKind,
> {
    if derive_params_ok(params) {
        Ok(
            scrypt_of(
                password,
                salt,
                log2_of(params.n as nat) as u8,
                params.r,
                params.p,
                params.dklen as nat,
            ),
        )
    } else {
        Err(ErrorKind::InvalidParams)
    }
}

/// Determinism: the derived key is a function of the inputs alone — two
/// derivations from equal passwords, salts and parameters are equal.
pub proof fn lemma_derive_deterministic(
    password1: Seq<u8>,
    salt1: Seq<u8>,
    params1: KdfParams,
    password2: Seq<u8>,
    salt2: Seq<u8>,
    params2: KdfParams,
)
    requires
        password1 == password2,
        salt1 == salt2,
        params1 == params2,
    ensures
        spec_derive(password1, salt1, params1) == spec_derive(password2, salt2, params2),
{
}

/// Derive a key of exactly `params.dklen` bytes from `password` and
/// `salt` under the given cost parameters, rejecting with
/// `InvalidParams` any parameters the underlying primitive does not
/// support (N not a power of two, r or p zero or oversized, dklen zero
/// or oversized).
pub fn derive(password: &Vec<u8>, salt: &Vec<u8>, params: KdfParams) -> (res: Result<
    Vec<u8>,
    ErrorKind,
>)
    ensures
        res matches Ok(key) ==> {
            &&& spec_derive(password@, salt@, params) == Ok::<Seq<u8>, ErrorKind>(key@)
            &&& key@.len() == params.dklen
        },
        res matches Err(e) ==> spec_derive(password@, salt@, params) == Err::<Seq<u8>, ErrorKind>(
            e,
        ),
        res is Ok <==> derive_params_ok(params),
{
    let log_n = match exact_log2(params.n) {
        Some(k) => k,
        None => { return Err(ErrorKind::InvalidParams) },
    };
    if params.r == 0 || params.p == 0 {
        return Err(ErrorKind::InvalidParams);
    }
    let r_wide: u128 = params.r as u128;
    let p_wide: u128 = params.p as u128;
    let n_wide: u128 = params.n as u128;
    let max_wide: u128 = usize::MAX as u128;
    proof {
        lemma_pow2_log2(params.n as nat);
        assert(128 * r_wide <= 0x80_0000_0000 && 128 * r_wide * n_wide <= 0x8000_0000_0000_0000_0000
            && 128 * r_wide * p_wide <= 0x8000_0000_0000_0000_0000 && r_wide * p_wide
            <= 0x1_0000_0000_0000_0000) by (nonlinear_arith)
            requires
                r_wide <= 0xffff_ffff,
                p_wide <= 0xffff_ffff,
                n_wide <= 0xffff_ffff,
        ;
    }
    if 128 * r_wide * n_wide > max_wide || 128 * r_wide * p_wide > max_wide || r_wide * p_wide
        >= 0x4000_0000 {
        return Err(ErrorKind::InvalidParams);
    }
    if params.dklen == 0 || params.dklen / 32 > 0xffff_ffff {
        return Err(ErrorKind::InvalidParams);
    }
    let out = scrypt_call(password, salt, log_n, params.r, params.p, params.dklen);
    Ok(out)
}

} // verus!
