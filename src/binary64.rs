//! A model of the IEEE-754 binary64 encoding, and exact tests on it.
use vstd::arithmetic::mul::{lemma_mul_inequality, lemma_mul_strict_inequality};
use vstd::arithmetic::power2::{
    lemma2_to64, lemma_pow2_adds, lemma_pow2_pos, lemma_pow2_strictly_increases, pow2,
};
use vstd::prelude::*;

verus! {

/// The bits of `f64::EPSILON`, which is 2^-52.
pub const EPSILON_BITS: u64 = 0x3CB0_0000_0000_0000;

/// The bits of `f64::INFINITY`.
pub const INFINITY_BITS: u64 = 0x7FF0_0000_0000_0000;

/// Every bit but the sign bit.
pub const MAGNITUDE_MASK: u64 = 0x7FFF_FFFF_FFFF_FFFF;

/// The sign bit: set for negative values, negative zero included.
pub open spec fn is_negative_spec(bits: u64) -> bool {
    bits >> 63u64 == 1
}

/// The biased exponent, in `0 ..= 2047`.
pub open spec fn exponent_field(bits: u64) -> u64 {
    (bits >> 52u64) & 0x7ffu64
}

/// The 52 stored bits of the significand.
pub open spec fn fraction_field(bits: u64) -> u64 {
    bits & 0xF_FFFF_FFFF_FFFFu64
}

pub open spec fn is_infinite_spec(bits: u64) -> bool {
    exponent_field(bits) == 0x7ff && fraction_field(bits) == 0
}

pub open spec fn is_nan_spec(bits: u64) -> bool {
    exponent_field(bits) == 0x7ff && fraction_field(bits) != 0
}

pub open spec fn is_finite_spec(bits: u64) -> bool {
    exponent_field(bits) < 0x7ff
}

/// The absolute value of a finite value, in units of 2^-1074 (the smallest
/// subnormal): the value is `(-1)^sign * scaled_magnitude(bits) * 2^-1074`.
pub open spec fn scaled_magnitude(bits: u64) -> nat
    recommends
        is_finite_spec(bits),
{
    let e = exponent_field(bits) as nat;
    let f = fraction_field(bits) as nat;
    if e == 0 {
        f
    } else {
        (f + pow2(52)) * pow2((e - 1) as nat)
    }
}

/// `f64::EPSILON` (2^-52) in the units of `scaled_magnitude`.
pub open spec fn scaled_epsilon() -> nat {
    pow2(1022)
}

/// `|x| < f64::EPSILON`: false for NaN and for both infinities.
pub open spec fn below_epsilon_spec(bits: u64) -> bool {
    is_finite_spec(bits) && scaled_magnitude(bits) < scaled_epsilon()
}

/// `x >= f64::EPSILON`: false for NaN and for every negative value, true for
/// positive infinity.
pub open spec fn at_least_epsilon_spec(bits: u64) -> bool {
    &&& !is_negative_spec(bits)
    &&& !is_nan_spec(bits)
    &&& (is_infinite_spec(bits) || scaled_magnitude(bits) >= scaled_epsilon())
}

/// A value is finite, infinite or NaN, and just one of them.
pub proof fn lemma_exponent_bound(bits: u64)
    ensures
        exponent_field(bits) <= 0x7ff,
        is_finite_spec(bits) <==> !is_infinite_spec(bits) && !is_nan_spec(bits),
{
    assert(((bits >> 52u64) & 0x7ffu64) <= 0x7ffu64) by (bit_vector);
}

proof fn lemma_pow2_52()
    ensures
        pow2(52) == 0x10_0000_0000_0000,
{
    lemma2_to64();
    lemma_pow2_adds(32, 20);
}

/// A finite value lies below epsilon exactly when its biased exponent is
/// below that of epsilon (971).
proof fn lemma_below_epsilon_by_exponent(bits: u64)
    requires
        is_finite_spec(bits),
    ensures
        scaled_magnitude(bits) < scaled_epsilon() <==> exponent_field(bits) < 971,
{
    let e = exponent_field(bits) as nat;
    let f = fraction_field(bits) as nat;
    assert(bits & 0xF_FFFF_FFFF_FFFFu64 < 0x10_0000_0000_0000u64) by (bit_vector);
    lemma_pow2_52();
    if e == 0 {
        lemma_pow2_strictly_increases(52, 1022);
    } else {
        let k = (e - 1) as nat;
        lemma_pow2_pos(k);
        lemma_pow2_adds(52, k);
        lemma_pow2_adds(1, 52);
        lemma2_to64();
        if e < 971 {
            lemma_mul_strict_inequality((f + pow2(52)) as int, pow2(53) as int, pow2(k) as int);
            lemma_pow2_adds(53, k);
            if 53 + k < 1022 {
                lemma_pow2_strictly_increases(53 + k, 1022);
            }
        } else {
            lemma_mul_inequality(pow2(52) as int, (f + pow2(52)) as int, pow2(k) as int);
            if 52 + k > 1022 {
                lemma_pow2_strictly_increases(1022, 52 + k);
            }
        }
    }
}

/// `x.is_infinite()`, read off the bits of `x`.
pub fn is_infinite(bits: u64) -> (r: bool)
    ensures
        r == is_infinite_spec(bits),
{
    proof {
        assert((bits & 0x7FFF_FFFF_FFFF_FFFFu64 == 0x7FF0_0000_0000_0000u64) <==> (((bits
            >> 52u64) & 0x7ffu64) == 0x7ffu64 && bits & 0xF_FFFF_FFFF_FFFFu64 == 0u64))
            by (bit_vector);
    }
    bits & MAGNITUDE_MASK == INFINITY_BITS
}

/// `x.is_nan()`, read off the bits of `x`.
pub fn is_nan(bits: u64) -> (r: bool)
    ensures
        r == is_nan_spec(bits),
{
    proof {
        assert((bits & 0x7FFF_FFFF_FFFF_FFFFu64 > 0x7FF0_0000_0000_0000u64) <==> (((bits
            >> 52u64) & 0x7ffu64) == 0x7ffu64 && bits & 0xF_FFFF_FFFF_FFFFu64 != 0u64))
            by (bit_vector);
    }
    bits & MAGNITUDE_MASK > INFINITY_BITS
}

/// `x.abs() < f64::EPSILON`, read off the bits of `x`.
pub fn below_epsilon(bits: u64) -> (r: bool)
    ensures
        r == below_epsilon_spec(bits),
{
    proof {
        assert((bits & 0x7FFF_FFFF_FFFF_FFFFu64 < 0x3CB0_0000_0000_0000u64) <==> (((bits
            >> 52u64) & 0x7ffu64) < 971u64)) by (bit_vector);
        lemma_exponent_bound(bits);
        if is_finite_spec(bits) {
            lemma_below_epsilon_by_exponent(bits);
        }
    }
    bits & MAGNITUDE_MASK < EPSILON_BITS
}

/// `x >= f64::EPSILON`, read off the bits of `x`.
pub fn at_least_epsilon(bits: u64) -> (r: bool)
    ensures
        r == at_least_epsilon_spec(bits),
{
    proof {
        assert((0x3CB0_0000_0000_0000u64 <= bits && bits <= 0x7FF0_0000_0000_0000u64) <==> (
        (bits >> 63u64) != 1u64 && ((bits >> 52u64) & 0x7ffu64) >= 971u64 && !(((bits
            >> 52u64) & 0x7ffu64) == 0x7ffu64 && bits & 0xF_FFFF_FFFF_FFFFu64 != 0u64)))
            by (bit_vector);
        lemma_exponent_bound(bits);
        if is_finite_spec(bits) {
            lemma_below_epsilon_by_exponent(bits);
        }
    }
    EPSILON_BITS <= bits && bits <= INFINITY_BITS
}

} // verus!
