//! Single-precision scalars as bit patterns.
//!
//! A scalar travels through this crate as the 32 bits of its IEEE 754
//! encoding: one sign bit, eight bits of biased exponent and twenty-three bits
//! of fraction. The functions here say what number such a pattern denotes, so
//! that contracts elsewhere can speak of magnitudes instead of masks.
use vstd::arithmetic::mul::lemma_mul_inequality;
use vstd::arithmetic::mul::lemma_mul_strict_inequality;
use vstd::arithmetic::power2::lemma2_to64;
use vstd::arithmetic::power2::lemma_pow2_adds;
use vstd::arithmetic::power2::lemma_pow2_pos;
use vstd::arithmetic::power2::lemma_pow2_strictly_increases;
use vstd::arithmetic::power2::lemma_pow2_unfold;
use vstd::arithmetic::power2::pow2;
use vstd::prelude::*;

verus! {

/// The encoding of the scalar one.
pub const ONE: u32 = 0x3F80_0000;

/// The pattern with its sign bit cleared.
pub open spec fn magnitude_bits(bits: u32) -> nat {
    (bits % 0x8000_0000) as nat
}

/// The eight-bit exponent field.
pub open spec fn biased_exponent(bits: u32) -> nat {
    magnitude_bits(bits) / 0x80_0000
}

/// The twenty-three-bit fraction field.
pub open spec fn fraction(bits: u32) -> nat {
    (bits % 0x80_0000) as nat
}

/// The pattern denotes a number: it is neither an infinity nor a NaN.
pub open spec fn is_finite(bits: u32) -> bool {
    biased_exponent(bits) < 255
}

/// The pattern denotes zero, of either sign.
pub open spec fn is_zero(bits: u32) -> bool {
    magnitude_bits(bits) == 0
}

/// The absolute value of the number that a finite pattern denotes, in units
/// of 2^-149 (the smallest positive single-precision number). Subnormal
/// patterns have no hidden bit; all others have one.
pub open spec fn scaled_magnitude(bits: u32) -> nat
    recommends
        is_finite(bits),
{
    if biased_exponent(bits) == 0 {
        fraction(bits)
    } else {
        (0x80_0000 + fraction(bits)) * pow2((biased_exponent(bits) - 1) as nat)
    }
}

/// The magnitude bits are the exponent field followed by the fraction field.
pub proof fn lemma_fields(bits: u32)
    ensures
        magnitude_bits(bits) == biased_exponent(bits) * 0x80_0000 + fraction(bits),
        biased_exponent(bits) <= 255,
        fraction(bits) < 0x80_0000,
{
    let m: nat = magnitude_bits(bits);
    assert(m % 0x80_0000 == fraction(bits)) by {
        assert((bits % 0x8000_0000) % 0x80_0000 == bits % 0x80_0000) by (bit_vector);
    }
}

/// The pattern `ONE` denotes the number one: 2^149 units of 2^-149, with the
/// sign bit clear.
pub proof fn lemma_one()
    ensures
        is_finite(ONE),
        ONE < 0x8000_0000,
        scaled_magnitude(ONE) == pow2(149),
{
    assert(biased_exponent(ONE) == 127);
    assert(fraction(ONE) == 0);
    lemma2_to64();
    lemma_pow2_adds(23, 126);
}

/// A pattern with the smaller exponent field denotes the smaller magnitude,
/// whatever the two fractions are.
proof fn lemma_exponent_dominates(a: u32, b: u32)
    requires
        is_finite(b),
        biased_exponent(a) < biased_exponent(b),
    ensures
        scaled_magnitude(a) < scaled_magnitude(b),
{
    lemma_fields(a);
    lemma_fields(b);
    lemma2_to64();
    let ea: nat = biased_exponent(a);
    let eb: nat = biased_exponent(b);
    let fa: int = fraction(a) as int;
    let fb: int = fraction(b) as int;
    let pb: int = pow2((eb - 1) as nat) as int;
    lemma_pow2_pos((eb - 1) as nat);
    // The least magnitude with exponent eb.
    assert(0x80_0000 * pb <= (0x80_0000 + fb) * pb) by {
        lemma_mul_inequality(0x80_0000, 0x80_0000 + fb, pb);
    }
    if ea == 0 {
        assert(0x80_0000 * 1 <= 0x80_0000 * pb) by (nonlinear_arith)
            requires
                pb >= 1,
        ;
    } else {
        let pa: int = pow2((ea - 1) as nat) as int;
        lemma_pow2_pos((ea - 1) as nat);
        assert((0x80_0000 + fa) * pa < 0x100_0000 * pa) by {
            lemma_mul_strict_inequality(0x80_0000 + fa, 0x100_0000, pa);
        }
        lemma_pow2_unfold(ea);
        assert(0x100_0000 * pa == 0x80_0000 * pow2(ea)) by (nonlinear_arith)
            requires
                pow2(ea) == 2 * pa,
        ;
        if ea < eb - 1 {
            lemma_pow2_strictly_increases(ea, (eb - 1) as nat);
        }
        assert(0x80_0000 * pow2(ea) <= 0x80_0000 * pb) by (nonlinear_arith)
            requires
                pow2(ea) <= pb,
        ;
    }
}

/// Among finite patterns, comparing magnitude bits as integers compares the
/// magnitudes of the numbers they denote.
pub proof fn lemma_magnitude_order(a: u32, b: u32)
    requires
        is_finite(a),
        is_finite(b),
    ensures
        magnitude_bits(a) < magnitude_bits(b) <==> scaled_magnitude(a) < scaled_magnitude(b),
        magnitude_bits(a) == magnitude_bits(b) ==> scaled_magnitude(a) == scaled_magnitude(b),
{
    lemma_fields(a);
    lemma_fields(b);
    let ea: nat = biased_exponent(a);
    let eb: nat = biased_exponent(b);
    let fa: int = fraction(a) as int;
    let fb: int = fraction(b) as int;
    if ea < eb {
        lemma_exponent_dominates(a, b);
        assert(ea * 0x80_0000 + 0x80_0000 <= eb * 0x80_0000);
    } else if eb < ea {
        lemma_exponent_dominates(b, a);
        assert(eb * 0x80_0000 + 0x80_0000 <= ea * 0x80_0000);
    } else if ea != 0 {
        let p: int = pow2((ea - 1) as nat) as int;
        lemma_pow2_pos((ea - 1) as nat);
        if fa < fb {
            lemma_mul_strict_inequality(0x80_0000 + fa, 0x80_0000 + fb, p);
        } else if fb < fa {
            lemma_mul_strict_inequality(0x80_0000 + fb, 0x80_0000 + fa, p);
        }
    }
}

} // verus!
