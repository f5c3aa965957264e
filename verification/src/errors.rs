//! The error surface of the library.

use vstd::prelude::*;

verus! {

/// Why a call failed.
///
/// `ComputationFailure` is reserved for an internal failure of the
/// underlying primitive; the parameter validation performed before the
/// derivation call rules such a failure out, so no function of this
/// library currently produces it.
#[derive(Clone, Copy, Debug, PartialEq, Eq, Structural)]
pub enum ErrorKind {
    /// Hex input is malformed: odd length or a non-hex character.
    InvalidEncoding,
    /// N is not a power of two, or r / p / dklen fall outside the ranges
    /// the underlying primitive supports without internal overflow.
    InvalidParams,
    /// Unexpected internal failure of the derivation primitive.
    ComputationFailure,
}

} // verus!
