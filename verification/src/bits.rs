//! Bit-level model of IEEE 754 binary64: field decomposition, classification,
//! magnitude, and the unit-in-the-last-place of a representation.

use vstd::prelude::*;

verus! {

use vstd::arithmetic::power2::pow2;

/// Sign bit of a binary64 bit pattern: 0 for non-negative numbers.
pub open spec fn sign_bit(b: u64) -> u64 {
    b >> 63
}

/// Biased exponent field (11 bits).
pub open spec fn biased_exp(b: u64) -> u64 {
    (b >> 52) & 0x7ff
}

/// Fraction field (52 bits).
pub open spec fn fraction(b: u64) -> u64 {
    b & 0xf_ffff_ffff_ffff
}

/// The pattern encodes a NaN.
pub open spec fn is_nan_bits(b: u64) -> bool {
    biased_exp(b) == 0x7ff && fraction(b) != 0
}

/// The pattern encodes a finite number (neither an infinity nor a NaN).
pub open spec fn is_finite_bits(b: u64) -> bool {
    biased_exp(b) != 0x7ff
}

/// The pattern encodes a zero of either sign.
pub open spec fn is_zero_bits(b: u64) -> bool {
    b & 0x7fff_ffff_ffff_ffff == 0
}

/// The pattern encodes a non-negative number (possibly an infinity, never a
/// NaN). On such patterns the ordinary `u64` order coincides with the
/// numeric order of the encoded values.
pub open spec fn is_nonneg_bits(b: u64) -> bool {
    sign_bit(b) == 0 && !is_nan_bits(b)
}

/// The magnitude of the number encoded by `b`, as an exact integer multiple
/// of 2^-1074 (the smallest positive binary64). The sign bit is ignored.
pub open spec fn val_scaled(b: u64) -> int {
    if biased_exp(b) == 0 {
        fraction(b) as int
    } else {
        (fraction(b) + 0x10_0000_0000_0000) * pow2((biased_exp(b) - 1) as nat)
    }
}

/// On sign-0 patterns the `u64` order never decreases the encoded
/// magnitude: comparing such patterns as integers compares the numbers they
/// encode. This is what lets a contract state "this error is at least that
/// one" as a plain `u64` comparison of error patterns.
pub proof fn lemma_nonneg_order_is_numeric(a: u64, b: u64)
    requires
        sign_bit(a) == 0,
        sign_bit(b) == 0,
        a <= b,
    ensures
        val_scaled(a) <= val_scaled(b),
{
    let ea = biased_exp(a);
    let fa = fraction(a);
    let eb = biased_exp(b);
    let fb = fraction(b);
    let mm = 0x10_0000_0000_0000int;
    assert(fa <= 0xf_ffff_ffff_ffff && fb <= 0xf_ffff_ffff_ffff && (ea < eb || (ea == eb && fa
        <= fb))) by (bit_vector)
        requires
            sign_bit(a) == 0 && sign_bit(b) == 0 && a <= b && ea == biased_exp(a) && fa == fraction(
                a,
            ) && eb == biased_exp(b) && fb == fraction(b),
    ;
    if ea == eb {
        if ea != 0 {
            let p = pow2((ea - 1) as nat);
            vstd::arithmetic::power2::lemma_pow2_pos((ea - 1) as nat);
            assert((fa + mm) * p <= (fb + mm) * p) by (nonlinear_arith)
                requires
                    fa <= fb && p >= 0,
            ;
        }
    } else {
        let pb = pow2((eb - 1) as nat);
        vstd::arithmetic::power2::lemma_pow2_pos((eb - 1) as nat);
        if ea == 0 {
            assert(fa as int <= (fb + mm) * pb) by (nonlinear_arith)
                requires
                    fa < mm && fb >= 0 && pb >= 1,
            ;
        } else {
            let pa = pow2((ea - 1) as nat);
            vstd::arithmetic::power2::lemma_pow2_pos((ea - 1) as nat);
            vstd::arithmetic::power2::lemma_pow2_unfold(ea as nat);
            if ea < eb - 1 {
                vstd::arithmetic::power2::lemma_pow2_strictly_increases(
                    ea as nat,
                    (eb - 1) as nat,
                );
            }
            assert((fa + mm) * pa <= (fb + mm) * pb) by (nonlinear_arith)
                requires
                    fa <= mm - 1 && fb >= 0 && pa >= 1 && pb >= 1 && 2 * pa == pow2(ea as nat)
                        && pow2(ea as nat) <= pb && mm == 0x10_0000_0000_0000,
            ;
        }
    }
}

/// Bit pattern of the magnitude: the same number with the sign bit cleared.
pub open spec fn abs_bits_spec(b: u64) -> u64 {
    b & 0x7fff_ffff_ffff_ffff
}

/// Clear the sign bit, yielding the magnitude of the encoded number.
pub fn abs_bits(b: u64) -> (r: u64)
    ensures
        r == abs_bits_spec(b),
{
    b & 0x7fff_ffff_ffff_ffff
}

/// Taking the magnitude of a non-NaN pattern yields a non-negative one.
pub proof fn lemma_abs_keeps_nonneg(b: u64)
    requires
        !is_nan_bits(b),
    ensures
        is_nonneg_bits(abs_bits_spec(b)),
{
    assert((b & 0x7fff_ffff_ffff_ffff) >> 63 == 0) by (bit_vector);
    assert(((b & 0x7fff_ffff_ffff_ffff) >> 52) & 0x7ff == (b >> 52) & 0x7ff) by (bit_vector);
    assert((b & 0x7fff_ffff_ffff_ffff) & 0xf_ffff_ffff_ffff == b & 0xf_ffff_ffff_ffff)
        by (bit_vector);
}

/// Bit pattern of one unit in the last place of `b`: the spacing of the
/// binade that `b` lies in, itself encoded as a binary64. Defined for every
/// pattern, but meaningful for finite ones.
pub open spec fn ulp_bits_spec(b: u64) -> u64 {
    let e = biased_exp(b);
    if e == 0 {
        1u64
    } else if e <= 52 {
        1u64 << ((e - 1) as u64)
    } else {
        ((e - 52) as u64) << 52u64
    }
}

/// One unit in the last place really is the gap to the next representable
/// double: for any finite pattern `b` whose magnitude `m` is not the largest
/// finite one, the number encoded by `m + 1` (the next representable
/// magnitude) exceeds the one encoded by `m` by exactly the positive number
/// that `ulp_bits_spec(b)` encodes. For a non-negative `b` this is the
/// distance to the next double above it; for a negative `b`, the distance to
/// the next double below it.
pub proof fn lemma_ulp_is_gap(b: u64)
    requires
        is_finite_bits(b),
        abs_bits_spec(b) != 0x7fef_ffff_ffff_ffff,
    ensures
        val_scaled((abs_bits_spec(b) + 1) as u64) - val_scaled(abs_bits_spec(b)) == val_scaled(
            ulp_bits_spec(b),
        ),
        val_scaled(ulp_bits_spec(b)) > 0,
{
    let m = abs_bits_spec(b);
    let e = biased_exp(b);
    let f = fraction(b);
    let mm = 0x10_0000_0000_0000int;
    assert(e <= 2047 && f <= 0xf_ffff_ffff_ffff) by (bit_vector)
        requires
            e == biased_exp(b) && f == fraction(b),
    ;
    assert(biased_exp(m) == e && fraction(m) == f && m < 0xffff_ffff_ffff_ffff) by (bit_vector)
        requires
            m == abs_bits_spec(b) && e == biased_exp(b) && f == fraction(b) && biased_exp(b)
                != 0x7ff,
    ;
    let n = (m + 1) as u64;
    if f < 0xf_ffff_ffff_ffff {
        assert(biased_exp(n) == e && fraction(n) == f + 1) by (bit_vector)
            requires
                n == ((m + 1) as u64) && m == abs_bits_spec(b) && e == biased_exp(b) && f == fraction(b)
                    && f < 0xf_ffff_ffff_ffff,
        ;
    } else {
        assert(biased_exp(n) == e + 1 && fraction(n) == 0) by (bit_vector)
            requires
                n == ((m + 1) as u64) && m == abs_bits_spec(b) && e == biased_exp(b) && f == fraction(b)
                    && f == 0xf_ffff_ffff_ffff && m != 0x7fef_ffff_ffff_ffff && e != 0x7ff,
        ;
    }
    if e == 0 {
        assert(biased_exp(1u64) == 0 && fraction(1u64) == 1) by (bit_vector);
        if f == 0xf_ffff_ffff_ffff {
            vstd::arithmetic::power2::lemma2_to64();
        }
    } else {
        let p = pow2((e - 1) as nat);
        vstd::arithmetic::power2::lemma_pow2_pos((e - 1) as nat);
        // The value of the pattern encoding one unit in the last place is
        // pow2(e - 1) scaled units.
        if e <= 52 {
            let u = 1u64 << ((e - 1) as u64);
            assert(biased_exp(u) == 0 && fraction(u) == u) by (bit_vector)
                requires
                    u == 1u64 << ((e - 1) as u64) && 1 <= e <= 52,
            ;
            vstd::bits::lemma_u64_pow2_no_overflow((e - 1) as nat);
            vstd::bits::lemma_u64_shl_is_mul(1u64, (e - 1) as u64);
            assert(val_scaled(u) == p);
        } else {
            let u = ((e - 52) as u64) << 52u64;
            assert(biased_exp(u) == e - 52 && fraction(u) == 0) by (bit_vector)
                requires
                    u == ((e - 52) as u64) << 52u64 && 53 <= e <= 2046,
            ;
            vstd::arithmetic::power2::lemma2_to64_rest();
            vstd::arithmetic::power2::lemma_pow2_adds(52, (e - 53) as nat);
            assert(val_scaled(u) == mm * pow2((e - 53) as nat));
            assert(val_scaled(u) == p);
        }
        // The gap between the magnitudes of n and m is pow2(e - 1) as well.
        if f < 0xf_ffff_ffff_ffff {
            assert((f + 1 + mm) * p - (f + mm) * p == p) by (nonlinear_arith);
        } else {
            vstd::arithmetic::power2::lemma_pow2_unfold(e as nat);
            assert(val_scaled(n) == mm * pow2(e as nat));
            assert(mm * (2 * p) - (f + mm) * p == p) by (nonlinear_arith)
                requires
                    f == mm - 1 && p > 0,
            ;
        }
    }
}

/// The error seeded into a freshly converted value: one unit in the last
/// place for finite nonzero numbers, and a zero pattern where that spacing
/// is undefined (zero, infinities, NaN).
pub open spec fn ulp_error_spec(b: u64) -> u64 {
    if is_finite_bits(b) && !is_zero_bits(b) {
        ulp_bits_spec(b)
    } else {
        0
    }
}

/// Conversion law: for a finite nonzero pattern `b` whose magnitude is not
/// the largest finite one, the error seeded by conversion encodes exactly
/// the distance between the number and the next representable double of
/// larger magnitude, and that distance is positive.
pub proof fn lemma_seed_error_is_gap(b: u64)
    requires
        is_finite_bits(b),
        !is_zero_bits(b),
        abs_bits_spec(b) != 0x7fef_ffff_ffff_ffff,
    ensures
        val_scaled((abs_bits_spec(b) + 1) as u64) - val_scaled(abs_bits_spec(b)) == val_scaled(
            ulp_error_spec(b),
        ),
        val_scaled(ulp_error_spec(b)) > 0,
{
    lemma_ulp_is_gap(b);
}

/// Compute the seed error for the pattern `b`: one unit in the last place,
/// or zero where that is undefined.
pub fn ulp_error_bits(b: u64) -> (r: u64)
    ensures
        r == ulp_error_spec(b),
        is_nonneg_bits(r),
        is_finite_bits(r),
{
    let e: u64 = (b >> 52) & 0x7ff;
    assert(e <= 2047) by (bit_vector)
        requires
            e == (b >> 52) & 0x7ff,
    ;
    if e == 0x7ff || b & 0x7fff_ffff_ffff_ffff == 0 {
        assert(is_nonneg_bits(0u64) && is_finite_bits(0u64)) by (bit_vector);
        0
    } else if e == 0 {
        assert(is_nonneg_bits(1u64) && is_finite_bits(1u64)) by (bit_vector);
        1
    } else if e <= 52 {
        let r: u64 = 1u64 << (e - 1);
        assert(is_nonneg_bits(r) && is_finite_bits(r)) by (bit_vector)
            requires
                1 <= e <= 52,
                r == 1u64 << ((e - 1) as u64),
        ;
        r
    } else {
        let r: u64 = (e - 52) << 52u64;
        assert(is_nonneg_bits(r) && is_finite_bits(r)) by (bit_vector)
            requires
                53 <= e <= 2046,
                r == ((e - 52) as u64) << 52u64,
        ;
        r
    }
}

} // verus!
