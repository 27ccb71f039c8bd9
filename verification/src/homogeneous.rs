//! The divisor of the perspective divide.
//!
//! A clip-space point `(x, y, z, w)` becomes a Cartesian point by division by
//! `w`. Points on or near the plane through the eye have a `w` at or near
//! zero, and dividing by it yields infinities or nothing at all. The policy
//! here is to divide by one instead whenever the magnitude of `w` is below
//! one thousandth.
use crate::binary32::is_finite;
use crate::binary32::is_zero;
use crate::binary32::lemma_magnitude_order;
use crate::binary32::lemma_one;
use crate::binary32::magnitude_bits;
use crate::binary32::scaled_magnitude;
use crate::binary32::ONE;
use vstd::arithmetic::power2::lemma2_to64_rest;
use vstd::arithmetic::power2::lemma_pow2_adds;
use vstd::arithmetic::power2::lemma_pow2_pos;
use vstd::arithmetic::power2::pow2;
use vstd::prelude::*;

verus! {

/// The least magnitude that is kept as a divisor: the encoding of the
/// single-precision number nearest to one thousandth, which lies just above
/// it.
pub const W_THRESHOLD: u32 = 0x3A83_126F;

/// `w` denotes a number whose absolute value is less than 1/1000.
pub open spec fn near_zero(w: u32) -> bool {
    is_finite(w) && 1000 * scaled_magnitude(w) < pow2(149)
}

/// The divisor used for a clip-space point whose fourth coordinate is `w`.
pub open spec fn stabilized(w: u32) -> u32 {
    if near_zero(w) {
        ONE
    } else {
        w
    }
}

/// `W_THRESHOLD` denotes a number that is at least 1/1000 and differs from it
/// by less than half the spacing of single-precision numbers of its size,
/// which is 2^116 units; the pattern before it denotes a number below 1/1000.
pub proof fn lemma_threshold()
    ensures
        is_finite(W_THRESHOLD),
        magnitude_bits(W_THRESHOLD) == W_THRESHOLD,
        1000 * scaled_magnitude(W_THRESHOLD) >= pow2(149),
        2 * (1000 * scaled_magnitude(W_THRESHOLD) - pow2(149)) < 1000 * pow2(116),
        scaled_magnitude(W_THRESHOLD) - scaled_magnitude((W_THRESHOLD - 1) as u32) == pow2(116),
        1000 * scaled_magnitude((W_THRESHOLD - 1) as u32) < pow2(149),
{
    let below: u32 = 0x3A83_126E;
    assert(scaled_magnitude(W_THRESHOLD) == 8589935 * pow2(116));
    assert(scaled_magnitude(below) == 8589934 * pow2(116));
    lemma2_to64_rest();
    lemma_pow2_adds(33, 116);
    lemma_pow2_pos(116);
    let unit: int = pow2(116) as int;
    assert(1000 * (8589934 * unit) < 8589934592 * unit <= 1000 * (8589935 * unit))
        by (nonlinear_arith)
        requires
            unit > 0,
    ;
    assert(2 * (1000 * (8589935 * unit) - 8589934592 * unit) < 1000 * unit) by (nonlinear_arith)
        requires
            unit > 0,
    ;
    assert(8589935 * unit - 8589934 * unit == unit) by (nonlinear_arith);
}

/// No single-precision number lies between 1/1000 and the number that
/// `W_THRESHOLD` denotes, so a magnitude is below the one exactly when its
/// bits are below the other.
pub proof fn lemma_near_zero_bits(w: u32)
    ensures
        near_zero(w) <==> magnitude_bits(w) < W_THRESHOLD,
{
    let below: u32 = 0x3A83_126E;
    assert(magnitude_bits(below) == below);
    lemma_threshold();
    if magnitude_bits(w) < W_THRESHOLD {
        assert(is_finite(w));
        lemma_magnitude_order(below, w);
    } else if is_finite(w) {
        lemma_magnitude_order(w, W_THRESHOLD);
    }
}

/// The divisor that stands in for a near-zero `w` is not itself near zero,
/// and no divisor that comes out of `stabilized` is zero.
pub proof fn lemma_stabilized_divides(w: u32)
    ensures
        !near_zero(stabilized(w)),
        !is_zero(stabilized(w)),
        stabilized(stabilized(w)) == stabilized(w),
{
    lemma_one();
    lemma_near_zero_bits(ONE);
    lemma_near_zero_bits(w);
}

/// Tells whether the magnitude of `w` is below one thousandth.
pub fn is_near_zero(w: u32) -> (r: bool)
    ensures
        r == near_zero(w),
        r == (magnitude_bits(w) < W_THRESHOLD),
{
    proof {
        lemma_near_zero_bits(w);
        assert(w & 0x7FFF_FFFF == w % 0x8000_0000) by (bit_vector);
    }
    (w & 0x7FFF_FFFF) < W_THRESHOLD
}

/// Returns the divisor for a clip-space point whose fourth coordinate is `w`:
/// one if `w` is near zero, `w` itself if not. The result is never zero, so
/// the division is defined.
pub fn stabilize_w(w: u32) -> (r: u32)
    ensures
        r == stabilized(w),
        r == (if magnitude_bits(w) < W_THRESHOLD { ONE } else { w }),
        !near_zero(r),
        !is_zero(r),
{
    proof {
        lemma_near_zero_bits(w);
        lemma_stabilized_divides(w);
    }
    if is_near_zero(w) {
        ONE
    } else {
        w
    }
}

} // verus!
