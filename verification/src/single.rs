//! Reading IEEE 754 single-precision bit patterns.
//!
//! A pattern is a sign bit, eight exponent bits and twenty-three fraction
//! bits. Every finite pattern is an integer multiple of `2^-149`, so its
//! value can be told exactly by an integer: the number of such units.

use vstd::arithmetic::power2::{lemma2_to64, lemma_pow2_adds, lemma_pow2_pos, lemma_pow2_strictly_increases, pow2};
use vstd::prelude::*;

verus! {

/// The pattern of `+0.0`.
pub const ZERO: u32 = 0;

/// The pattern of `-0.0`.
pub const NEGATIVE_ZERO: u32 = 0x8000_0000;

/// The pattern of `1.0`.
pub const ONE: u32 = 0x3f80_0000;

/// The pattern of positive infinity; every larger magnitude is a NaN.
pub const INFINITY: u32 = 0x7f80_0000;

/// Whether the sign bit is set.
pub open spec fn sign(bits: u32) -> bool {
    bits >= 0x8000_0000
}

/// The pattern with its sign bit cleared.
pub open spec fn magnitude(bits: u32) -> nat {
    if bits >= 0x8000_0000 {
        (bits - 0x8000_0000) as nat
    } else {
        bits as nat
    }
}

/// The biased exponent, from 0 to 255.
pub open spec fn exponent(bits: u32) -> nat {
    magnitude(bits) / 0x80_0000
}

/// The twenty-three fraction bits.
pub open spec fn fraction(bits: u32) -> nat {
    magnitude(bits) % 0x80_0000
}

/// Neither an infinity nor a NaN.
pub open spec fn finite(bits: u32) -> bool {
    exponent(bits) < 255
}

/// Not a number.
pub open spec fn nan(bits: u32) -> bool {
    exponent(bits) == 255 && fraction(bits) != 0
}

/// The absolute value of a finite pattern, counted in units of `2^-149`.
pub open spec fn unit_count(bits: u32) -> nat {
    if exponent(bits) == 0 {
        fraction(bits)
    } else {
        (0x80_0000 + fraction(bits)) * pow2((exponent(bits) - 1) as nat)
    }
}

/// The value of a finite pattern, counted in units of `2^-149`.
pub open spec fn units(bits: u32) -> int {
    if sign(bits) {
        -(unit_count(bits) as int)
    } else {
        unit_count(bits) as int
    }
}

/// A finite value that is zero or more: what can weigh in a draw.
pub open spec fn non_negative(bits: u32) -> bool {
    finite(bits) && units(bits) >= 0
}

/// A finite value above zero.
pub open spec fn positive(bits: u32) -> bool {
    finite(bits) && units(bits) > 0
}

/// A finite value that is exactly zero, of either sign.
pub open spec fn zero(bits: u32) -> bool {
    finite(bits) && units(bits) == 0
}

/// A finite value from zero to one, both included: a probability.
pub open spec fn probability(bits: u32) -> bool {
    finite(bits) && 0 <= units(bits) <= pow2(149)
}

/// Among finite patterns with the sign bit clear the order of the patterns
/// is the order of the values.
pub proof fn lemma_unit_count_increases(low: u32, high: u32)
    requires
        low < high,
        high < 0x7f80_0000,
    ensures
        unit_count(low) < unit_count(high),
{
    let el = exponent(low);
    let eh = exponent(high);
    let fl = fraction(low);
    let fh = fraction(high);
    assert(el <= eh);
    if el == eh {
        if el > 0 {
            lemma_pow2_pos((el - 1) as nat);
            assert((0x80_0000 + fl) * pow2((el - 1) as nat) < (0x80_0000 + fh) * pow2((el - 1) as nat))
                by (nonlinear_arith)
                requires
                    fl < fh,
                    pow2((el - 1) as nat) > 0,
            ;
        }
    } else {
        lemma_pow2_pos((eh - 1) as nat);
        if el == 0 {
            assert((0x80_0000 + fh) * pow2((eh - 1) as nat) >= 0x80_0000) by (nonlinear_arith)
                requires
                    pow2((eh - 1) as nat) > 0,
            ;
        } else {
            let pl = pow2((el - 1) as nat);
            let ph = pow2((eh - 1) as nat);
            lemma_pow2_pos((el - 1) as nat);
            lemma_pow2_adds((el - 1) as nat, 1);
            lemma2_to64();
            assert(pow2(el) == pl * 2);
            if el < eh - 1 {
                lemma_pow2_strictly_increases(el, (eh - 1) as nat);
            }
            assert(pl * 2 <= ph);
            assert((0x80_0000 + fl) * pl < (0x80_0000 + fh) * ph) by (nonlinear_arith)
                requires
                    fl < 0x80_0000,
                    pl * 2 <= ph,
                    pl > 0,
            ;
        }
    }
}

/// The pattern of `1.0` stands for `2^149` units.
pub proof fn lemma_units_of_one()
    ensures
        finite(ONE),
        units(ONE) == pow2(149),
{
    lemma2_to64();
    lemma_pow2_adds(23, 126);
    assert(exponent(ONE) == 127);
    assert(fraction(ONE) == 0);
}

/// How the four readings show in the pattern itself: a finite value is
/// zero or more when its pattern lies below that of infinity or is the
/// negative zero, above zero when its pattern lies between those of zero
/// and infinity, zero when it is one of the two zeros, and a probability
/// when its pattern lies at or below that of one or is the negative zero.
pub proof fn lemma_readings(bits: u32)
    ensures
        non_negative(bits) <==> bits < INFINITY || bits == NEGATIVE_ZERO,
        positive(bits) <==> 0 < bits < INFINITY,
        zero(bits) <==> bits == ZERO || bits == NEGATIVE_ZERO,
        probability(bits) <==> bits <= ONE || bits == NEGATIVE_ZERO,
{
    lemma_units_of_one();
    if 0 < bits && bits < 0x7f80_0000 {
        lemma_unit_count_increases(0, bits);
    }
    if 0x8000_0000 < bits && bits < 0xff80_0000 {
        lemma_unit_count_increases(0, (bits - 0x8000_0000) as u32);
    }
    if bits < ONE {
        lemma_unit_count_increases(bits, ONE);
    }
    if ONE < bits && bits < 0x7f80_0000 {
        lemma_unit_count_increases(ONE, bits);
    }
}

/// Whether the pattern is a finite value that is zero or more.
pub fn is_non_negative(bits: u32) -> (yes: bool)
    ensures
        yes == non_negative(bits),
{
    proof {
        lemma_readings(bits);
    }
    bits < INFINITY || bits == NEGATIVE_ZERO
}

/// Whether the pattern is a finite value above zero.
pub fn is_positive(bits: u32) -> (yes: bool)
    ensures
        yes == positive(bits),
{
    proof {
        lemma_readings(bits);
    }
    0 < bits && bits < INFINITY
}

/// Whether the pattern is a zero of either sign.
pub fn is_zero(bits: u32) -> (yes: bool)
    ensures
        yes == zero(bits),
{
    proof {
        lemma_readings(bits);
    }
    bits == ZERO || bits == NEGATIVE_ZERO
}

/// Whether the pattern is a finite value from zero to one.
pub fn is_probability(bits: u32) -> (yes: bool)
    ensures
        yes == probability(bits),
{
    proof {
        lemma_readings(bits);
    }
    bits <= ONE || bits == NEGATIVE_ZERO
}

} // verus!
