//! Self-validating double-precision arithmetic: every number carries an
//! estimate of the rounding error accumulated so far, so a caller can judge
//! how many digits of a result are trustworthy.
//!
//! The verified core works on IEEE 754 binary64 *bit patterns* (`u64`), since
//! the reasoning is about the representation itself: unit-in-the-last-place
//! seeding of fresh values, compensated summation for the error of a single
//! addition, and first-order propagation through transcendental functions.
//! Host code converts between native doubles and bit patterns at the edge.

use vstd::prelude::*;

pub mod arith;
pub mod bits;

verus! {

use crate::arith::{add_bits, add_bits_spec, mul_bits, mul_bits_spec, sub_bits, sub_bits_spec};
use crate::bits::{
    abs_bits, abs_bits_spec, is_finite_bits, is_nan_bits, is_nonneg_bits, lemma_abs_keeps_nonneg,
    sign_bit, ulp_error_bits, ulp_error_spec,
};

/// A numeric value together with an estimate of the absolute error already
/// present in it. `value` and `error` hold IEEE 754 binary64 bit patterns.
#[derive(Debug, Copy, Clone, PartialEq, Eq, Hash, Default)]
pub struct Shaman<T> {
    pub value: T,
    pub error: T,
}

/// The rounding error of one binary64 addition, recovered by compensated
/// summation: with `xy` the rounded sum of `x` and `y`, the two half-errors
/// `x - (xy - y)` and `y - (xy - x)` are reconstructed and the sum of their
/// magnitudes is a conservative bound on the error of that addition.
pub open spec fn two_sum_spec(x: u64, y: u64, xy: u64) -> u64 {
    add_bits_spec(
        abs_bits_spec(sub_bits_spec(x, sub_bits_spec(xy, y))),
        abs_bits_spec(sub_bits_spec(y, sub_bits_spec(xy, x))),
    )
}

/// Compensated-sum primitive: the magnitude of the rounding error introduced
/// by the single binary64 addition that produced `xy` from `x` and `y`.
/// For finite addends it always yields a non-negative, non-NaN pattern.
/// Kept out of line, and computed by a software float unit, so that no
/// compiler transformation assuming associativity can collapse it.
#[inline(never)]
pub fn two_sum(x: u64, y: u64, xy: u64) -> (r: u64)
    ensures
        r == two_sum_spec(x, y, xy),
        is_finite_bits(x) && is_finite_bits(y) && !is_nan_bits(xy) ==> is_nonneg_bits(r),
{
    let x_ = sub_bits(xy, y);
    let y_ = sub_bits(xy, x);
    let dx = sub_bits(x, x_);
    let dy = sub_bits(y, y_);
    proof {
        if is_finite_bits(x) && is_finite_bits(y) && !is_nan_bits(xy) {
            lemma_abs_keeps_nonneg(dx);
            lemma_abs_keeps_nonneg(dy);
        }
    }
    add_bits(abs_bits(dx), abs_bits(dy))
}

/// The tracked sum of `a` and `b`: the rounded sum of the values, and an
/// error that stacks both input errors on top of the rounding error of this
/// very addition.
pub open spec fn add_spec(a: Shaman<u64>, b: Shaman<u64>) -> Shaman<u64> {
    let xy = add_bits_spec(a.value, b.value);
    Shaman {
        value: xy,
        error: add_bits_spec(
            add_bits_spec(a.error, b.error),
            two_sum_spec(a.value, b.value, xy),
        ),
    }
}

/// The propagated error of a transcendental step: the input error scaled by
/// the magnitude of the function's derivative at the input, plus one unit in
/// the last place of the computed result for the evaluation's own rounding.
pub open spec fn kernel_spec(deriv_abs: u64, error: u64, result: u64) -> u64 {
    add_bits_spec(mul_bits_spec(deriv_abs, error), ulp_error_spec(result))
}

/// First-order Taylor error kernel shared by every transcendental operator:
/// `deriv_abs` is the magnitude of the derivative at the point of
/// evaluation, `error` the error already carried by the input, and `result`
/// the rounded function value.
pub fn fallback_kernel(deriv_abs: u64, error: u64, result: u64) -> (r: u64)
    ensures
        r == kernel_spec(deriv_abs, error, result),
        is_finite_bits(deriv_abs) && sign_bit(deriv_abs) == 0 && is_finite_bits(error)
            && sign_bit(error) == 0 ==> is_nonneg_bits(r),
{
    let scaled = mul_bits(deriv_abs, error);
    let local = ulp_error_bits(result);
    add_bits(scaled, local)
}

impl Shaman<u64> {
    /// The errors carried by a tracked value are read as magnitudes: a
    /// well-formed one holds a non-negative, non-NaN error pattern.
    pub open spec fn wf(self) -> bool {
        is_nonneg_bits(self.error)
    }

    /// Convert a raw binary64 pattern into a tracked value, seeding the
    /// error with one unit in the last place of the input, or zero where
    /// that spacing is undefined (zero, infinities, NaN).
    pub fn from_bits(f: u64) -> (r: Self)
        ensures
            r.value == f,
            r.error == ulp_error_spec(f),
            r.wf(),
            is_finite_bits(r.error),
    {
        Shaman { value: f, error: ulp_error_bits(f) }
    }

    /// Tracked addition. The result is pinned to `add_spec`; moreover, for
    /// finite values the value is that of the flipped addition as well
    /// (binary64 addition commutes), and for well-formed operands with
    /// finite values the result is well-formed and its error is at least
    /// either input error (errors accumulate, never cancel). The comparison
    /// is on the error patterns as integers, which for such patterns orders
    /// the encoded magnitudes: see `bits::lemma_nonneg_order_is_numeric`.
    pub fn add(self, other: Self) -> (r: Self)
        ensures
            r == add_spec(self, other),
            is_finite_bits(self.value) && is_finite_bits(other.value) ==> r.value
                == add_spec(other, self).value,
            is_finite_bits(self.value) && is_finite_bits(other.value) && self.wf() && other.wf()
                ==> r.wf() && self.error <= r.error && other.error <= r.error,
    {
        let x = self.value;
        let y = other.value;
        let xy = add_bits(x, y);
        let t = two_sum(x, y, xy);
        let e1 = add_bits(self.error, other.error);
        let e = add_bits(e1, t);
        Shaman { value: xy, error: e }
    }

    /// Shape the outcome of one transcendental operator application: `result`
    /// is the rounded value of the function at `self.value`, and `deriv_abs`
    /// the magnitude of its derivative there. The new error is the magnitude
    /// of the kernel's output. Every transcendental operator (sine, cosine,
    /// and any later addition) is this one definition applied to its own
    /// evaluator and derivative.
    pub fn apply_unop(self, result: u64, deriv_abs: u64) -> (r: Self)
        ensures
            r.value == result,
            r.error == abs_bits_spec(kernel_spec(deriv_abs, self.error, result)),
            is_finite_bits(deriv_abs) && sign_bit(deriv_abs) == 0 && is_finite_bits(self.error)
                && sign_bit(self.error) == 0 ==> r.wf(),
    {
        let k = fallback_kernel(deriv_abs, self.error, result);
        proof {
            if is_finite_bits(deriv_abs) && sign_bit(deriv_abs) == 0 && is_finite_bits(self.error)
                && sign_bit(self.error) == 0 {
                lemma_abs_keeps_nonneg(k);
            }
        }
        Shaman { value: result, error: abs_bits(k) }
    }
}

} // verus!

