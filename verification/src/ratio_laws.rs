//! That failure ratios are compared as binary64 numbers are: what number a bit
//! pattern is, and how counts and their quotients are rounded.

use vstd::arithmetic::power2::{lemma2_to64, lemma_pow2_adds, lemma_pow2_pos, lemma_pow2_unfold, pow2};
use vstd::prelude::*;
use vstd::std_specs::cmp::PartialEqSpec;

use crate::ratio::{
    exponent_field, halfway_below, is_zero, law_small_counts_are_exact, lemma_spacing_bounds,
    nearest, quotient_reaches, scale, significand, spacing, FailureRatio, FRACTION_COUNT, ONE_BITS,
    SIGN_BIT,
};

verus! {

/// What number a positive pattern up to that of 1 is: the significand over two to
/// the power of the scale. The pattern of 1 is 1. The least patterns count up from
/// zero in the least steps; within an exponent every next pattern is one step more;
/// and the same pattern in the next exponent is twice the number.
pub proof fn law_numbers_of_patterns(bits: u64)
    requires
        0 < bits <= ONE_BITS,
    ensures
        significand(ONE_BITS) == pow2(scale(ONE_BITS)),
        bits < FRACTION_COUNT ==> significand(bits) == bits && scale(bits) == 1074,
        bits < ONE_BITS && bits % FRACTION_COUNT < FRACTION_COUNT - 1 ==> {
            &&& significand((bits + 1) as u64) == significand(bits) + 1
            &&& scale((bits + 1) as u64) == scale(bits)
        },
        bits >= FRACTION_COUNT && bits + FRACTION_COUNT <= ONE_BITS ==> {
            &&& significand((bits + FRACTION_COUNT) as u64) == significand(bits)
            &&& scale((bits + FRACTION_COUNT) as u64) + 1 == scale(bits)
        },
        significand(FRACTION_COUNT) == significand((FRACTION_COUNT - 1) as u64) + 1,
        scale(FRACTION_COUNT) == scale((FRACTION_COUNT - 1) as u64),
{
    assert(scale(ONE_BITS) == 52);
    assert(pow2(52) == FRACTION_COUNT) by {
        vstd::arithmetic::power2::lemma2_to64_rest();
    }
    let count = FRACTION_COUNT as int;
    if bits < ONE_BITS && bits % FRACTION_COUNT < FRACTION_COUNT - 1 {
        assert((bits + 1) / count == bits / FRACTION_COUNT);
        assert((bits + 1) % count == bits % FRACTION_COUNT + 1);
    }
    if bits >= FRACTION_COUNT && bits + FRACTION_COUNT <= ONE_BITS {
        assert((bits + count) / count == bits / FRACTION_COUNT + 1);
        assert((bits + count) % count == (bits % FRACTION_COUNT) as int);
    }
}

/// The quotient of two counts reaches the number of a pattern exactly where it lies
/// above the middle between that number and the one just below it, or on that
/// middle where the pattern is even: so it is rounded to the nearest number. Both
/// counts are rounded first. The numbers are told over the scale of the one below.
pub proof fn law_quotients_are_rounded_to_the_nearest(bits: u64, part: nat, whole: nat)
    requires
        0 < bits <= ONE_BITS,
    ensures
        ({
            let below = (bits - 1) as u64;
            let number = significand(bits) * pow2((scale(below) - scale(bits)) as nat);
            let twice = 2 * (nearest(part) * pow2(scale(below)));
            let middle = (number + significand(below)) * nearest(whole);
            &&& scale(below) >= scale(bits)
            &&& quotient_reaches(bits, part, whole) <==> twice > middle || (twice == middle && bits
                % 2 == 0)
        }),
{
    let below = (bits - 1) as u64;
    let p = nearest(part);
    let w = nearest(whole);
    let s = scale(bits);
    let power = pow2(s);
    lemma_pow2_unfold(s + 2);
    lemma_pow2_unfold(s + 1);
    lemma2_to64();
    assert(pow2(s + 2) == 4 * power);
    assert(p * (4 * power) == 4 * (p * power)) by (nonlinear_arith);
    if bits % FRACTION_COUNT == 0 && exponent_field(bits) > 1 {
        assert(below / FRACTION_COUNT == bits / FRACTION_COUNT - 1);
        assert(below % FRACTION_COUNT == FRACTION_COUNT - 1);
        assert(scale(below) == s + 1);
        assert(significand(below) == 2 * FRACTION_COUNT - 1);
        assert(pow2((scale(below) - s) as nat) == 2);
        assert(significand(bits) == FRACTION_COUNT);
        assert(significand(bits) * pow2((scale(below) - s) as nat) == 2 * FRACTION_COUNT);
        assert(p * (2 * power) == 2 * (p * power)) by (nonlinear_arith);
    } else if bits % FRACTION_COUNT == 0 {
        assert(exponent_field(bits) == 1);
        assert(below / FRACTION_COUNT == 0);
        assert(below % FRACTION_COUNT == FRACTION_COUNT - 1);
        assert(scale(below) == s);
        assert(pow2((scale(below) - s) as nat) == 1);
        assert(significand(bits) * pow2((scale(below) - s) as nat) == significand(bits));
        let single = (significand(bits) + significand(below)) as int;
        assert(halfway_below(bits) == 2 * single);
        assert((2 * single) * w == 2 * (single * w)) by (nonlinear_arith);
    } else {
        assert(below / FRACTION_COUNT == bits / FRACTION_COUNT);
        assert(below % FRACTION_COUNT == bits % FRACTION_COUNT - 1);
        assert(scale(below) == s);
        assert(pow2((scale(below) - s) as nat) == 1);
        assert(significand(bits) * pow2((scale(below) - s) as nat) == significand(bits));
        let single = (significand(bits) + significand(below)) as int;
        assert(halfway_below(bits) == 2 * single);
        assert((2 * single) * w == 2 * (single * w)) by (nonlinear_arith);
    }
}

/// Whether an integer is a binary64 number: up to two to the power of 53, times a
/// power of two.
pub open spec fn is_binary64(value: nat) -> bool {
    exists|factor: nat, exponent: nat|
        factor <= 2 * FRACTION_COUNT && value == #[trigger] (factor * pow2(exponent))
}

/// How far apart two integers are.
pub open spec fn apart(first: nat, second: nat) -> nat {
    if first <= second {
        (second - first) as nat
    } else {
        (first - second) as nat
    }
}

/// The exponent of the spacing at an integer.
spec fn spacing_exponent(value: nat) -> nat
    decreases value,
{
    if value < 2 * FRACTION_COUNT {
        0
    } else {
        spacing_exponent(value / 2) + 1
    }
}

proof fn lemma_spacing_is_a_power(value: nat)
    ensures
        spacing(value) == pow2(spacing_exponent(value)),
    decreases value,
{
    lemma2_to64();
    if value >= 2 * FRACTION_COUNT {
        lemma_spacing_is_a_power(value / 2);
        lemma_pow2_unfold(spacing_exponent(value));
    }
}

/// A count is rounded to the binary64 number nearest to it: no other is nearer, and
/// between two that are equally near it is the even one.
pub proof fn law_counts_are_rounded_to_the_nearest(value: nat, other: nat)
    requires
        is_binary64(other),
    ensures
        is_binary64(nearest(value)),
        apart(nearest(value), value) <= apart(other, value),
        2 * (value % spacing(value)) == spacing(value) ==> (nearest(value) / spacing(value)) % 2
            == 0,
{
    let unit = spacing(value);
    let below = value / unit;
    let rest = value % unit;
    let exponent = spacing_exponent(value);
    lemma_spacing_bounds(value);
    lemma_spacing_is_a_power(value);
    vstd::arithmetic::div_mod::lemma_fundamental_div_mod(value as int, unit as int);
    assert(unit * below == below * unit) by (nonlinear_arith);
    assert((below + 1) * unit == below * unit + unit) by (nonlinear_arith);
    assert(nearest(value) == below * unit || nearest(value) == (below + 1) * unit);
    assert(is_binary64(nearest(value))) by {
        assert(is_binary64(below * unit)) by {
            assert(below <= 2 * FRACTION_COUNT && below * unit == below * pow2(exponent));
        }
        let next = (below + 1) as nat;
        assert(is_binary64(next * unit)) by {
            assert(next <= 2 * FRACTION_COUNT && next * unit == next * pow2(exponent));
        }
    }
    assert(2 * rest == unit ==> (nearest(value) / unit) % 2 == 0) by {
        if 2 * rest == unit {
            let factor = if below % 2 == 0 {
                below
            } else {
                below + 1
            };
            assert(nearest(value) == factor * unit);
            vstd::arithmetic::div_mod::lemma_div_by_multiple(factor as int, unit as int);
        }
    }
    if value < 2 * FRACTION_COUNT {
        law_small_counts_are_exact(value);
    } else {
        let (factor, power) = choose|factor: nat, power: nat|
            factor <= 2 * FRACTION_COUNT && other == #[trigger] (factor * pow2(power));
        if power >= exponent {
            let shift = (power - exponent) as nat;
            let multiple = factor * pow2(shift);
            lemma_pow2_adds(exponent, shift);
            let high = pow2(shift);
            assert(factor * (unit * high) == (factor * high) * unit) by (nonlinear_arith);
            assert(other == multiple * unit);
            if multiple <= below {
                assert(multiple * unit <= below * unit) by (nonlinear_arith)
                    requires
                        multiple <= below,
                ;
            } else {
                assert((below + 1) * unit <= multiple * unit) by (nonlinear_arith)
                    requires
                        below + 1 <= multiple,
                ;
            }
        } else {
            let shift = (exponent - power - 1) as nat;
            lemma_pow2_adds(power, shift);
            lemma_pow2_unfold(exponent);
            lemma_pow2_pos(shift);
            let small = pow2(power);
            let factor_up = pow2(shift);
            assert(small <= small * factor_up) by (nonlinear_arith)
                requires
                    factor_up >= 1,
            ;
            assert(2 * small <= unit);
            assert(factor * small <= (2 * FRACTION_COUNT) * small) by (nonlinear_arith)
                requires
                    factor <= 2 * FRACTION_COUNT,
            ;
            assert((2 * FRACTION_COUNT) * small == FRACTION_COUNT * (2 * small))
                by (nonlinear_arith);
            assert(FRACTION_COUNT * (2 * small) <= FRACTION_COUNT * unit) by (nonlinear_arith)
                requires
                    2 * small <= unit,
            ;
            assert(FRACTION_COUNT * unit <= below * unit) by (nonlinear_arith)
                requires
                    FRACTION_COUNT <= below,
            ;
        }
    }
}

/// A ratio answers as its number does: zero of either sign is always reached, and
/// any other by the rounded quotient.
pub proof fn law_ratios_answer_by_their_number(
    ratio: FailureRatio,
    part: usize,
    whole: usize,
    reached: bool,
)
    requires
        call_ensures(FailureRatio::reached, (&ratio, part, whole), reached),
    ensures
        reached == quotient_reaches(ratio@, part as nat, whole as nat),
        ratio@ == 0 || ratio@ == SIGN_BIT ==> reached,
{
    assert(is_zero(0));
    assert(is_zero(SIGN_BIT));
}

/// A ratio is the number that it was made of where that lies from 0 to 1, zero with
/// its sign; the nearer of the two where it lies outside; and 1 where it is no number.
/// Of integers only zero lies below 1.
pub proof fn law_ratios_are_held_to_the_range(
    bits: u64,
    ratio: FailureRatio,
    integer: u64,
    of_integer: FailureRatio,
    read: u64,
    zero: bool,
)
    requires
        call_ensures(FailureRatio::from_bits, (bits,), ratio),
        call_ensures(FailureRatio::from_integer, (integer,), of_integer),
        call_ensures(FailureRatio::to_bits, (&ratio,), read),
        call_ensures(FailureRatio::is_zero, (&ratio,), zero),
    ensures
        bits <= 0x3ff0_0000_0000_0000 || bits == 0x8000_0000_0000_0000 ==> ratio@ == bits,
        0x3ff0_0000_0000_0000 < bits <= 0x7ff0_0000_0000_0000 ==> ratio@ == 0x3ff0_0000_0000_0000,
        0x8000_0000_0000_0000 < bits <= 0xfff0_0000_0000_0000 ==> ratio@ == 0,
        0x7ff0_0000_0000_0000 < bits % 0x8000_0000_0000_0000 ==> ratio@ == 0x3ff0_0000_0000_0000,
        integer == 0 ==> of_integer@ == 0,
        integer > 0 ==> of_integer@ == 0x3ff0_0000_0000_0000,
        read == ratio@,
        zero <==> ratio@ % 0x8000_0000_0000_0000 == 0,
{
}

/// Ratios are equal where their patterns are, or where both are zero.
pub proof fn law_equal_ratios(first: FailureRatio, second: FailureRatio)
    ensures
        first.eq_spec(&second) <==> first@ == second@ || (first@ % 0x8000_0000_0000_0000 == 0
            && second@ % 0x8000_0000_0000_0000 == 0),
{
}

} // verus!
