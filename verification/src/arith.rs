//! Binary64 arithmetic on bit patterns, performed by the `rustc_apfloat`
//! software implementation of IEEE 754. The operations are deterministic
//! functions of their argument patterns, so each is given an uninterpreted
//! name, and the trusted wrappers state beside it only the standard facts of
//! correctly rounded arithmetic that the verified callers rely on.

use rustc_apfloat::Float;
use vstd::prelude::*;

verus! {

use crate::bits::{is_finite_bits, is_nan_bits, is_nonneg_bits, sign_bit};

/// The binary64 sum of the numbers with patterns `x` and `y`, rounded to
/// nearest, ties to even.
pub uninterp spec fn add_bits_spec(x: u64, y: u64) -> u64;

/// The binary64 difference of the numbers with patterns `x` and `y`, rounded
/// to nearest, ties to even.
pub uninterp spec fn sub_bits_spec(x: u64, y: u64) -> u64;

/// The binary64 product of the numbers with patterns `x` and `y`, rounded to
/// nearest, ties to even.
pub uninterp spec fn mul_bits_spec(x: u64, y: u64) -> u64;

/// Relies on `rustc_apfloat::ieee::Double` addition (`IeeeFloat::add_r` with
/// round to nearest, ties to even): correctly rounded IEEE 754 binary64
/// addition. Such an addition is commutative on finite operands, returns a
/// NaN only for NaN operands or infinities of opposite sign, and on
/// non-negative operands is non-decreasing in each operand, which on
/// non-negative patterns is the `u64` order.
#[verifier::external_body]
pub(crate) fn add_bits(x: u64, y: u64) -> (r: u64)
    ensures
        r == add_bits_spec(x, y),
        is_finite_bits(x) && is_finite_bits(y) ==> r == add_bits_spec(y, x),
        !is_nan_bits(x) && !is_nan_bits(y) && (is_finite_bits(x) || is_finite_bits(y))
            ==> !is_nan_bits(r),
        is_nonneg_bits(x) && is_nonneg_bits(y) ==> is_nonneg_bits(r) && x <= r && y <= r,
{
    let a = rustc_apfloat::ieee::Double::from_bits(x as u128);
    let b = rustc_apfloat::ieee::Double::from_bits(y as u128);
    (a + b).value.to_bits() as u64
}

/// Relies on `rustc_apfloat::ieee::Double` subtraction (`IeeeFloat::sub_r`
/// with round to nearest, ties to even): correctly rounded IEEE 754 binary64
/// subtraction. It returns a NaN only for NaN operands or for the difference
/// of two like-signed infinities, so a non-NaN result is assured whenever at
/// least one operand is finite.
#[verifier::external_body]
pub(crate) fn sub_bits(x: u64, y: u64) -> (r: u64)
    ensures
        r == sub_bits_spec(x, y),
        !is_nan_bits(x) && !is_nan_bits(y) && (is_finite_bits(x) || is_finite_bits(y))
            ==> !is_nan_bits(r),
{
    let a = rustc_apfloat::ieee::Double::from_bits(x as u128);
    let b = rustc_apfloat::ieee::Double::from_bits(y as u128);
    (a - b).value.to_bits() as u64
}

/// Relies on `rustc_apfloat::ieee::Double` multiplication (`IeeeFloat::mul_r`
/// with round to nearest, ties to even): correctly rounded IEEE 754 binary64
/// multiplication. The product of two finite numbers is never a NaN, and its
/// sign is the exclusive or of the operand signs.
#[verifier::external_body]
pub(crate) fn mul_bits(x: u64, y: u64) -> (r: u64)
    ensures
        r == mul_bits_spec(x, y),
        is_finite_bits(x) && is_finite_bits(y) && sign_bit(x) == 0 && sign_bit(y) == 0
            ==> is_nonneg_bits(r),
{
    let a = rustc_apfloat::ieee::Double::from_bits(x as u128);
    let b = rustc_apfloat::ieee::Double::from_bits(y as u128);
    (a * b).value.to_bits() as u64
}

} // verus!
