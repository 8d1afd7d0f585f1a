//! Failure ratios: numbers from 0 to 1 in the IEEE 754 binary64 format, held as
//! their bit patterns, and the test whether a quotient of two counts reaches one.
//!
//! The test answers as binary64 arithmetic does: both counts are rounded to
//! binary64, their quotient is rounded to binary64, and the rounded quotient is
//! compared with the ratio. Rounding goes to the nearest number of the format
//! and, between two equally near, to the one whose last bit is zero.

use vstd::arithmetic::power2::{lemma_pow2_pos, lemma_pow2_unfold, pow2};
use vstd::prelude::*;

verus! {

/// Numbers of one exponent: two to the number of stored significand bits.
pub const FRACTION_COUNT: u64 = 0x10_0000_0000_0000;

/// Numbers of one sign: a pattern from here on has the sign bit set.
pub const SIGN_BIT: u64 = 0x8000_0000_0000_0000;

/// The pattern of 0.5.
pub const HALF_BITS: u64 = 0x3fe0_0000_0000_0000;

/// The pattern of 1.
pub const ONE_BITS: u64 = 0x3ff0_0000_0000_0000;

/// The pattern of infinity.
pub const INFINITY_BITS: u64 = 0x7ff0_0000_0000_0000;

/// The magnitude of a pattern: the pattern without its sign.
pub open spec fn magnitude(bits: u64) -> int {
    if bits >= SIGN_BIT {
        bits - SIGN_BIT
    } else {
        bits as int
    }
}

/// Whether a pattern is not a number.
pub open spec fn is_nan(bits: u64) -> bool {
    magnitude(bits) > INFINITY_BITS
}

/// Whether a pattern is zero, of either sign.
pub open spec fn is_zero(bits: u64) -> bool {
    magnitude(bits) == 0
}

/// Whether a pattern is that of a number from 0 to 1. Zero of either sign is one.
pub open spec fn in_range(bits: u64) -> bool {
    is_zero(bits) || bits <= ONE_BITS
}

/// Whether two patterns in the range are those of the same number: zero has two.
pub open spec fn same_number(first: u64, second: u64) -> bool {
    first == second || (is_zero(first) && is_zero(second))
}

/// The pattern held to the range from 0 to 1: what lies below becomes 0, what
/// lies above becomes 1, and so does what is not a number.
pub open spec fn clamped(bits: u64) -> u64 {
    if is_nan(bits) {
        ONE_BITS
    } else if is_zero(bits) {
        bits
    } else if bits >= SIGN_BIT {
        0
    } else if bits > ONE_BITS {
        ONE_BITS
    } else {
        bits
    }
}

/// The exponent field of a positive pattern.
pub open spec fn exponent_field(bits: u64) -> nat {
    (bits / FRACTION_COUNT) as nat
}

/// The significand of a positive pattern: its number is the significand over
/// two to the power of [`scale`].
pub open spec fn significand(bits: u64) -> nat {
    if exponent_field(bits) == 0 {
        (bits % FRACTION_COUNT) as nat
    } else {
        (FRACTION_COUNT + bits % FRACTION_COUNT) as nat
    }
}

/// The power of two under the significand of a positive pattern of at most 1.
pub open spec fn scale(bits: u64) -> nat {
    if exponent_field(bits) == 0 {
        1074
    } else {
        (1075 - exponent_field(bits)) as nat
    }
}

/// Four times the significand of the point halfway to the number just below
/// that of the pattern. Below a power of two the numbers lie twice as close.
pub open spec fn halfway_below(bits: u64) -> nat {
    if bits % FRACTION_COUNT == 0 && exponent_field(bits) > 1 {
        (4 * significand(bits) - 1) as nat
    } else {
        (4 * significand(bits) - 2) as nat
    }
}

/// The spacing of binary64 numbers at an integer: the least power of two that
/// leaves a quotient of 53 bits.
pub open spec fn spacing(value: nat) -> nat
    decreases value,
{
    if value < 2 * FRACTION_COUNT {
        1
    } else {
        2 * spacing(value / 2)
    }
}

/// The binary64 number nearest to an integer.
pub open spec fn nearest(value: nat) -> nat {
    let unit = spacing(value);
    let below = value / unit;
    let rest = value % unit;
    if 2 * rest < unit || (2 * rest == unit && below % 2 == 0) {
        below * unit
    } else {
        (below + 1) * unit
    }
}

/// Whether the binary64 quotient of two counts is at least the number of a
/// pattern in the range from 0 to 1. A quotient rounds to that number or above exactly
/// where it lies above the halfway point below the number, or on that point
/// where the number is the one with a last bit of zero.
pub open spec fn quotient_reaches(bits: u64, part: nat, whole: nat) -> bool {
    if is_zero(bits) {
        true
    } else {
        let scaled = nearest(part) * pow2(scale(bits) + 2);
        let halfway = halfway_below(bits) * nearest(whole);
        scaled > halfway || (scaled == halfway && bits % 2 == 0)
    }
}

/// A failure ratio from 0 to 1.
#[derive(Debug, Clone, Copy)]
pub struct FailureRatio {
    bits: u64,
}

impl View for FailureRatio {
    type V = u64;

    closed spec fn view(&self) -> u64 {
        self.bits
    }
}

impl FailureRatio {
    #[verifier::type_invariant]
    spec fn held_to_range(self) -> bool {
        in_range(self.bits)
    }

    /// The ratio of a binary64 bit pattern, held to the range from 0 to 1.
    pub fn from_bits(bits: u64) -> (ratio: FailureRatio)
        ensures
            ratio@ == clamped(bits),
            in_range(ratio@),
    {
        let magnitude: u64 = if bits >= SIGN_BIT {
            bits - SIGN_BIT
        } else {
            bits
        };
        if magnitude > INFINITY_BITS {
            FailureRatio { bits: ONE_BITS }
        } else if magnitude == 0 {
            FailureRatio { bits }
        } else if bits >= SIGN_BIT {
            FailureRatio { bits: 0 }
        } else if bits > ONE_BITS {
            FailureRatio { bits: ONE_BITS }
        } else {
            FailureRatio { bits }
        }
    }

    /// The ratio of an integer, held to the range from 0 to 1.
    pub fn from_integer(value: u64) -> (ratio: FailureRatio)
        ensures
            ratio@ == if value == 0 { 0 } else { ONE_BITS },
    {
        if value == 0 {
            FailureRatio { bits: 0 }
        } else {
            FailureRatio { bits: ONE_BITS }
        }
    }

    /// The binary64 bit pattern of this ratio.
    pub fn to_bits(&self) -> (bits: u64)
        ensures
            bits == self@,
            in_range(bits),
    {
        proof {
            use_type_invariant(self);
        }
        self.bits
    }

    /// Whether `part` out of `whole` reaches this ratio.
    pub fn reached(&self, part: usize, whole: usize) -> (reached: bool)
        requires
            whole > 0,
        ensures
            reached == quotient_reaches(self@, part as nat, whole as nat),
    {
        proof {
            use_type_invariant(self);
        }
        let bits = self.bits;
        if bits == 0 || bits == SIGN_BIT {
            return true;
        }
        let exponent: u64 = bits / FRACTION_COUNT;
        let fraction: u64 = bits % FRACTION_COUNT;
        let significand: u64 = if exponent == 0 {
            fraction
        } else {
            FRACTION_COUNT + fraction
        };
        let shift: u64 = if exponent == 0 {
            1076
        } else {
            1077 - exponent
        };
        let halfway: u64 = if fraction == 0 && exponent > 1 {
            4 * significand - 1
        } else {
            4 * significand - 2
        };
        let nearest_part: u128 = nearest_binary64(part);
        let nearest_whole: u128 = nearest_binary64(whole);
        proof {
            lemma_nearest_positive(part as nat);
            lemma_nearest_positive(whole as nat);
            assert(0 < halfway * nearest_whole < 0x100_0000_0000_0000_0000_0000_0000_0000)
                by (nonlinear_arith)
                requires
                    0 < halfway < 0x80_0000_0000_0000,
                    0 < nearest_whole <= 0x2_0000_0000_0000_0000,
            ;
        }
        let bound: u128 = halfway as u128 * nearest_whole;
        if nearest_part == 0 {
            proof {
                let power = pow2(scale(bits) + 2);
                assert(nearest_part * power == 0) by (nonlinear_arith)
                    requires
                        nearest_part == 0,
                ;
            }
            return false;
        }
        let mut scaled: u128 = nearest_part;
        let mut left: u64 = shift;
        while left > 0 && scaled <= bound
            invariant
                scaled >= 1,
                bound < 0x100_0000_0000_0000_0000_0000_0000_0000,
                scaled * pow2(left as nat) == nearest_part * pow2(shift as nat),
            decreases left,
        {
            proof {
                lemma_pow2_unfold(left as nat);
                let rest = pow2((left - 1) as nat);
                assert(scaled * (2 * rest) == (scaled * 2) * rest) by (nonlinear_arith);
            }
            scaled = scaled * 2;
            left = left - 1;
        }
        proof {
            let power = pow2(left as nat);
            lemma_pow2_pos(left as nat);
            assert(scaled <= scaled * power) by (nonlinear_arith)
                requires
                    scaled >= 1,
                    power >= 1,
            ;
            if left == 0 {
                vstd::arithmetic::power2::lemma2_to64();
                assert(scaled * power == scaled);
            }
        }
        scaled > bound || (scaled == bound && bits % 2 == 0)
    }
}

impl PartialEq for FailureRatio {
    /// Whether two ratios are the same number.
    fn eq(&self, other: &Self) -> (same: bool) {
        self.bits == other.bits || (self.is_zero() && other.is_zero())
    }
}

impl vstd::std_specs::cmp::PartialEqSpecImpl for FailureRatio {
    open spec fn obeys_eq_spec() -> bool {
        true
    }

    open spec fn eq_spec(&self, other: &Self) -> bool {
        same_number(self@, other@)
    }
}

impl FailureRatio {
    /// Whether this ratio is zero, of either sign.
    pub fn is_zero(&self) -> (zero: bool)
        ensures
            zero == is_zero(self@),
    {
        self.bits == 0 || self.bits == SIGN_BIT
    }
}

/// The spacing of an integer halves with the integer.
proof fn lemma_spacing_shift(value: nat, unit: nat)
    requires
        unit > 0,
        value / unit >= 2 * FRACTION_COUNT,
    ensures
        spacing(value / unit) == 2 * spacing(value / (2 * unit)),
{
    vstd::arithmetic::div_mod::lemma_div_denominator(value as int, unit as int, 2);
    assert(unit * 2 == 2 * unit);
}

/// An integer and its nearest binary64 number are zero together.
proof fn lemma_nearest_positive(value: nat)
    ensures
        nearest(value) == 0 <==> value == 0,
{
    lemma_spacing_bounds(value);
    let unit = spacing(value);
    let below = value / unit;
    vstd::arithmetic::div_mod::lemma_fundamental_div_mod(value as int, unit as int);
    if value > 0 {
        assert(below >= 1) by {
            if value < 2 * FRACTION_COUNT {
                assert(unit == 1);
                assert(value / 1 == value);
            }
        }
        assert(below * unit >= 1) by (nonlinear_arith)
            requires
                below >= 1,
                unit >= 1,
        ;
        assert((below + 1) * unit >= 1) by (nonlinear_arith)
            requires
                below >= 1,
                unit >= 1,
        ;
    } else {
        assert(unit == 1);
        assert(0nat / 1nat == 0);
    }
}

/// Over its spacing an integer has at most 53 bits, and all of them from two to
/// the power of 53 on.
pub(crate) proof fn lemma_spacing_bounds(value: nat)
    ensures
        spacing(value) >= 1,
        value / spacing(value) < 2 * FRACTION_COUNT,
        value >= 2 * FRACTION_COUNT ==> value / spacing(value) >= FRACTION_COUNT,
    decreases value,
{
    if value >= 2 * FRACTION_COUNT {
        lemma_spacing_bounds(value / 2);
        let unit = spacing(value / 2);
        vstd::arithmetic::div_mod::lemma_div_denominator(value as int, 2, unit as int);
        assert(value / (2 * unit) == (value / 2) / unit);
        if value / 2 < 2 * FRACTION_COUNT {
            assert(unit == 1);
            assert((value / 2) / 1 == value / 2);
        }
    } else {
        assert(value / 1 == value);
    }
}

/// Counts below two to the power of 53 are binary64 numbers themselves.
pub proof fn law_small_counts_are_exact(value: nat)
    requires
        value < 2 * FRACTION_COUNT,
    ensures
        nearest(value) == value,
{
    assert(spacing(value) == 1);
    assert(value / 1 == value);
    assert(value % 1 == 0);
}

/// The spacing grows with the integer, and where it grows at least doubles.
proof fn lemma_spacing_monotone(low: nat, high: nat)
    requires
        low <= high,
    ensures
        spacing(low) == spacing(high) || 2 * spacing(low) <= spacing(high),
    decreases high,
{
    if high >= 2 * FRACTION_COUNT {
        if low >= 2 * FRACTION_COUNT {
            lemma_spacing_monotone(low / 2, high / 2);
        } else {
            lemma_spacing_bounds(high / 2);
        }
    }
}

/// Rounding to binary64 keeps the order of integers.
proof fn lemma_nearest_monotone(low: nat, high: nat)
    requires
        low <= high,
    ensures
        nearest(low) <= nearest(high),
{
    lemma_spacing_bounds(low);
    lemma_spacing_bounds(high);
    lemma_spacing_monotone(low, high);
    let unit_low = spacing(low);
    let unit_high = spacing(high);
    let below_low = low / unit_low;
    let below_high = high / unit_high;
    vstd::arithmetic::div_mod::lemma_fundamental_div_mod(low as int, unit_low as int);
    vstd::arithmetic::div_mod::lemma_fundamental_div_mod(high as int, unit_high as int);
    if unit_low == unit_high {
        vstd::arithmetic::div_mod::lemma_div_is_ordered(low as int, high as int, unit_low as int);
        if below_low < below_high {
            assert((below_low + 1) * unit_low <= below_high * unit_low) by (nonlinear_arith)
                requires
                    below_low + 1 <= below_high,
            ;
            assert(below_low * unit_low <= (below_low + 1) * unit_low) by (nonlinear_arith);
            assert(below_high * unit_low <= (below_high + 1) * unit_low) by (nonlinear_arith);
        } else {
            assert(low % unit_low <= high % unit_low);
            assert(below_low * unit_low <= (below_low + 1) * unit_low) by (nonlinear_arith);
        }
    } else {
        assert(high >= 2 * FRACTION_COUNT);
        assert((below_low + 1) * unit_low <= (2 * FRACTION_COUNT) * unit_low) by (nonlinear_arith)
            requires
                below_low + 1 <= 2 * FRACTION_COUNT,
        ;
        assert(below_low * unit_low <= (below_low + 1) * unit_low) by (nonlinear_arith);
        assert((2 * FRACTION_COUNT) * unit_low <= FRACTION_COUNT * unit_high) by (nonlinear_arith)
            requires
                2 * unit_low <= unit_high,
        ;
        assert(FRACTION_COUNT * unit_high <= below_high * unit_high) by (nonlinear_arith)
            requires
                FRACTION_COUNT <= below_high,
        ;
        assert(below_high * unit_high <= (below_high + 1) * unit_high) by (nonlinear_arith);
    }
}

/// A ratio that some part of a whole reaches, every larger part reaches too.
pub proof fn law_larger_parts_reach(bits: u64, part: nat, larger: nat, whole: nat)
    requires
        part <= larger,
        quotient_reaches(bits, part, whole),
    ensures
        quotient_reaches(bits, larger, whole),
{
    lemma_nearest_monotone(part, larger);
    let power = pow2(scale(bits) + 2);
    let low = nearest(part);
    let high = nearest(larger);
    assert(low * power <= high * power) by (nonlinear_arith)
        requires
            low <= high,
    ;
}

/// A part that is at least the ratio of the whole in exact arithmetic reaches
/// it, whatever rounding does to the quotient.
pub proof fn law_exact_ratio_is_reached(bits: u64, part: nat, whole: nat)
    requires
        0 < bits <= ONE_BITS,
        part < 2 * FRACTION_COUNT,
        0 < whole < 2 * FRACTION_COUNT,
        part * pow2(scale(bits)) >= significand(bits) * whole,
    ensures
        quotient_reaches(bits, part, whole),
{
    law_small_counts_are_exact(part);
    law_small_counts_are_exact(whole);
    let power = pow2(scale(bits));
    lemma_pow2_unfold(scale(bits) + 2);
    lemma_pow2_unfold(scale(bits) + 1);
    assert(pow2(scale(bits) + 2) == 4 * power);
    let full = significand(bits);
    let halfway = halfway_below(bits);
    assert(part * (4 * power) == 4 * (part * power)) by (nonlinear_arith);
    assert(halfway * whole < 4 * (full * whole)) by (nonlinear_arith)
        requires
            halfway < 4 * full,
            whole > 0,
    ;
}

/// A ratio of zero, of either sign, is always reached.
pub proof fn law_zero_is_always_reached(bits: u64, part: nat, whole: nat)
    requires
        is_zero(bits),
    ensures
        quotient_reaches(bits, part, whole),
{
}

/// A ratio of one half is reached by half the whole, and by nothing less.
pub proof fn law_half_is_reached_by_half(part: nat, whole: nat)
    requires
        part < 2 * FRACTION_COUNT,
        0 < whole < 2 * FRACTION_COUNT,
    ensures
        quotient_reaches(HALF_BITS, part, whole) <==> 2 * part >= whole,
{
    law_small_counts_are_exact(part);
    law_small_counts_are_exact(whole);
    assert(scale(HALF_BITS) == 53);
    assert(significand(HALF_BITS) == FRACTION_COUNT);
    assert(halfway_below(HALF_BITS) == 4 * FRACTION_COUNT - 1);
    assert(pow2(55) == 0x80_0000_0000_0000) by {
        vstd::arithmetic::power2::lemma2_to64_rest();
    }
    let scaled = part * pow2(55);
    let halfway = (4 * FRACTION_COUNT - 1) * whole;
    assert(scaled == part * 0x80_0000_0000_0000);
    assert(halfway == 0x3f_ffff_ffff_ffff * whole);
}

/// A ratio of one is reached by the whole, and by nothing less.
pub proof fn law_one_is_reached_by_the_whole(part: nat, whole: nat)
    requires
        part < 2 * FRACTION_COUNT,
        0 < whole < 2 * FRACTION_COUNT,
    ensures
        quotient_reaches(ONE_BITS, part, whole) <==> part >= whole,
{
    law_small_counts_are_exact(part);
    law_small_counts_are_exact(whole);
    assert(scale(ONE_BITS) == 52);
    assert(significand(ONE_BITS) == FRACTION_COUNT);
    assert(halfway_below(ONE_BITS) == 4 * FRACTION_COUNT - 1);
    assert(pow2(54) == 0x40_0000_0000_0000) by {
        vstd::arithmetic::power2::lemma2_to64_rest();
    }
    let scaled = part * pow2(54);
    let halfway = (4 * FRACTION_COUNT - 1) * whole;
    assert(scaled == part * 0x40_0000_0000_0000);
    assert(halfway == 0x3f_ffff_ffff_ffff * whole);
}

/// Every pattern is held to a number from 0 to 1. A number of that range stays as
/// it is; one below becomes 0, one above becomes 1, infinite ones too, and what is
/// not a number becomes 1.
pub proof fn law_ratios_are_held_to_the_range(bits: u64)
    ensures
        in_range(clamped(bits)),
        in_range(bits) ==> clamped(bits) == bits,
        !is_nan(bits) && !in_range(bits) && bits < SIGN_BIT ==> clamped(bits) == ONE_BITS,
        !is_nan(bits) && !in_range(bits) && bits >= SIGN_BIT ==> clamped(bits) == 0,
        is_nan(bits) ==> clamped(bits) == ONE_BITS,
{
}

/// Rounds a count to the nearest binary64 number.
fn nearest_binary64(value: usize) -> (rounded: u128)
    ensures
        rounded == nearest(value as nat),
        rounded <= 0x2_0000_0000_0000_0000,
{
    let value: u128 = value as u128;
    let mut unit: u128 = 1;
    proof {
        assert(value / 1 == value);
    }
    while value / unit >= 2 * FRACTION_COUNT as u128
        invariant
            value < 0x1_0000_0000_0000_0000,
            1 <= unit <= 0x1_0000_0000_0000_0000,
            unit * spacing((value / unit) as nat) == spacing(value as nat),
        decreases value / unit,
    {
        proof {
            lemma_spacing_shift(value as nat, unit as nat);
            vstd::arithmetic::div_mod::lemma_div_denominator(value as int, unit as int, 2);
            assert(unit * 2 == 2 * unit);
            vstd::arithmetic::div_mod::lemma_fundamental_div_mod(value as int, unit as int);
            let quotient = value / unit;
            assert(unit * quotient >= unit * 2) by (nonlinear_arith)
                requires
                    quotient >= 2,
                    unit >= 1,
            ;
            let rest = spacing((value / (2 * unit) as u128) as nat);
            assert(unit * (2 * rest) == (2 * unit) * rest) by (nonlinear_arith);
        }
        unit = 2 * unit;
    }
    proof {
        let last = spacing((value / unit) as nat);
        assert(unit * last == unit) by (nonlinear_arith)
            requires
                last == 1,
        ;
        vstd::arithmetic::div_mod::lemma_fundamental_div_mod(value as int, unit as int);
    }
    let below: u128 = value / unit;
    let rest: u128 = value % unit;
    proof {
        assert(below * unit == unit * below) by (nonlinear_arith);
        assert((below + 1) * unit == below * unit + unit) by (nonlinear_arith);
    }
    if 2 * rest < unit || (2 * rest == unit && below % 2 == 0) {
        below * unit
    } else {
        (below + 1) * unit
    }
}

} // verus!
