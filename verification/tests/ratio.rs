use axum_fault_tolerance::ratio::{HALF_BITS, INFINITY_BITS, ONE_BITS};
use axum_fault_tolerance::FailureRatio;

fn reached(ratio: f64, part: usize, whole: usize) -> bool {
    FailureRatio::from_bits(ratio.to_bits()).reached(part, whole)
}

fn clamped(value: f64) -> f64 {
    f64::from_bits(FailureRatio::from_bits(value.to_bits()).to_bits())
}

#[test]
fn patterns_are_those_of_binary64() {
    assert_eq!(HALF_BITS, 0.5f64.to_bits());
    assert_eq!(ONE_BITS, 1.0f64.to_bits());
    assert_eq!(INFINITY_BITS, f64::INFINITY.to_bits());
}

#[test]
fn ratios_are_held_to_the_range() {
    for value in [
        0.0,
        -0.0,
        0.25,
        0.5,
        1.0,
        1.0 + f64::EPSILON,
        7.5,
        -3.0,
        f64::MIN_POSITIVE,
        -f64::MIN_POSITIVE,
        f64::INFINITY,
        f64::NEG_INFINITY,
    ] {
        assert_eq!(clamped(value).to_bits(), value.clamp(0.0, 1.0).to_bits());
    }
    assert_eq!(clamped(f64::NAN), 1.0);
    assert_eq!(clamped(-f64::NAN), 1.0);
    assert_eq!(clamped(f64::from_bits(u64::MAX)), 1.0);
    assert_eq!(clamped(f64::from_bits(INFINITY_BITS + 1)), 1.0);
}

#[test]
fn integers_become_zero_or_one() {
    assert_eq!(FailureRatio::from_integer(0).to_bits(), 0.0f64.to_bits());
    assert_eq!(FailureRatio::from_integer(1).to_bits(), 1.0f64.to_bits());
    assert_eq!(FailureRatio::from_integer(u64::MAX).to_bits(), 1.0f64.to_bits());
}

#[test]
fn half_is_reached_by_half() {
    assert!(!reached(0.5, 0, 2));
    assert!(reached(0.5, 1, 2));
    assert!(!reached(0.5, 1, 3));
    assert!(reached(0.5, 2, 3));
}

#[test]
fn one_is_reached_by_the_whole_alone() {
    assert!(reached(1.0, 7, 7));
    assert!(!reached(1.0, 6, 7));
}

#[test]
fn zero_is_always_reached() {
    assert!(reached(0.0, 0, 5));
    assert!(reached(-0.0, 0, 5));
}

#[test]
fn what_is_no_number_is_reached_by_the_whole() {
    assert!(reached(f64::NAN, 5, 5));
    assert!(!reached(f64::NAN, 4, 5));
}

#[test]
fn ratios_are_equal_as_numbers_are() {
    let ratio = |value: f64| FailureRatio::from_bits(value.to_bits());
    assert!(ratio(0.0) == ratio(-0.0));
    assert!(ratio(0.5) == ratio(0.5));
    assert!(ratio(0.5) != ratio(0.25));
    assert!(ratio(0.0) != ratio(f64::MIN_POSITIVE));
    assert!(ratio(7.0) == ratio(1.0));
    assert!(ratio(-0.0).is_zero());
    assert!(!ratio(0.5).is_zero());
}

#[test]
fn the_answer_is_that_of_binary64_division() {
    let mut ratios = vec![f64::MIN_POSITIVE, 5e-324, 1e-300, 0.1, 0.3, 0.7, 0.9, 0.999999];
    for whole in 1..40usize {
        for part in 0..=whole {
            let quotient = part as f64 / whole as f64;
            ratios.push(quotient);
            if quotient > 0.0 {
                ratios.push(f64::from_bits(quotient.to_bits() - 1));
            }
            if quotient < 1.0 {
                ratios.push(f64::from_bits(quotient.to_bits() + 1));
            }
        }
    }
    for whole in 1..40usize {
        for part in 0..=whole {
            for ratio in &ratios {
                assert_eq!(reached(*ratio, part, whole), part as f64 / whole as f64 >= *ratio);
            }
        }
    }
}

#[test]
fn large_counts_are_rounded_as_binary64_rounds_them() {
    let big = 1usize << 53;
    let counts = [
        1,
        big - 1,
        big,
        big + 1,
        big + 2,
        big + 3,
        2 * big + 1,
        2 * big + 2,
        2 * big + 3,
        2 * big + 6,
        usize::MAX - 1024,
        usize::MAX - 1,
        usize::MAX,
    ];
    for whole in counts {
        for part in counts {
            let quotient = part as f64 / whole as f64;
            for ratio in [0.5, 1.0, 0.9999999999999999, quotient.min(1.0)] {
                assert_eq!(reached(ratio, part, whole), quotient >= ratio);
            }
        }
    }
}
