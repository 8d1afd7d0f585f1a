use axum_fault_tolerance::{
    Bulkhead, CircuitBreaker, CircuitBreakerConfig, CircuitBreakerState, CircuitPermit, Duration,
    Error, FailureRatio, Instant,
};

fn at(millis: u64) -> Instant {
    Instant::at(Duration::from_millis(millis))
}

fn breaker(threshold: usize, ratio: f64, delay_ms: u64) -> CircuitBreaker {
    CircuitBreaker::new(
        CircuitBreakerConfig::new()
            .request_volume_threshold(threshold)
            .failure_ratio(FailureRatio::from_bits(ratio.to_bits()))
            .delay(Duration::from_millis(delay_ms)),
    )
}

fn record(breaker: &mut CircuitBreaker, outcomes: &[bool]) {
    for outcome in outcomes {
        assert_eq!(breaker.before_call(at(0)), Ok(CircuitPermit::Closed));
        breaker.after_call(*outcome, CircuitPermit::Closed, at(0));
    }
}

#[test]
fn a_breaker_starts_closed() {
    assert_eq!(CircuitBreaker::default().state(), CircuitBreakerState::Closed);
    assert_eq!(breaker(1, 1.0, 1).state(), CircuitBreakerState::Closed);
}

#[test]
fn fewer_calls_than_the_volume_do_not_open_the_circuit() {
    let mut breaker = breaker(5, 0.1, 1);
    record(&mut breaker, &[false, false, false, false]);
    assert_eq!(breaker.state(), CircuitBreakerState::Closed);
    record(&mut breaker, &[true]);
    assert_eq!(breaker.state(), CircuitBreakerState::Open);
}

#[test]
fn old_outcomes_are_forgotten() {
    let mut breaker = breaker(3, 0.5, 1);
    record(&mut breaker, &[false, true, true, true, false, true, true, false]);
    assert_eq!(breaker.state(), CircuitBreakerState::Closed);
    record(&mut breaker, &[false]);
    assert_eq!(breaker.state(), CircuitBreakerState::Open);
}

#[test]
fn the_default_opens_at_half_of_twenty_calls() {
    let mut breaker = CircuitBreaker::default();
    for _ in 0..10 {
        record(&mut breaker, &[true]);
    }
    for _ in 0..9 {
        record(&mut breaker, &[false]);
    }
    assert_eq!(breaker.state(), CircuitBreakerState::Closed);
    record(&mut breaker, &[false]);
    assert_eq!(breaker.state(), CircuitBreakerState::Open);
    assert_eq!(breaker.before_call(at(4_999)), Err(Error::CircuitOpen));
    assert_eq!(breaker.before_call(at(5_000)), Ok(CircuitPermit::HalfOpenProbe));
}

#[test]
fn a_threshold_of_zero_is_one() {
    let mut breaker = breaker(0, 1.0, 1);
    record(&mut breaker, &[false]);
    assert_eq!(breaker.state(), CircuitBreakerState::Open);
}

#[test]
fn a_ratio_of_zero_opens_with_the_first_full_volume() {
    let mut breaker = breaker(2, -1.0, 1);
    record(&mut breaker, &[true, true]);
    assert_eq!(breaker.state(), CircuitBreakerState::Open);
}

#[test]
fn a_ratio_above_one_is_one() {
    let mut breaker = breaker(2, 2.0, 1);
    record(&mut breaker, &[false, false]);
    assert_eq!(breaker.state(), CircuitBreakerState::Open);
}

#[test]
fn an_open_circuit_rejects_until_the_delay_is_over() {
    let mut breaker = breaker(1, 1.0, 10);
    breaker.after_call(false, CircuitPermit::Closed, at(100));
    assert_eq!(breaker.before_call(at(109)), Err(Error::CircuitOpen));
    assert_eq!(breaker.state(), CircuitBreakerState::Open);
    assert_eq!(breaker.before_call(at(110)), Ok(CircuitPermit::HalfOpenProbe));
    assert_eq!(breaker.state(), CircuitBreakerState::HalfOpen);
}

#[test]
fn one_probe_is_on_its_way_at_a_time() {
    let mut breaker = breaker(1, 1.0, 10);
    breaker.after_call(false, CircuitPermit::Closed, at(0));
    assert_eq!(breaker.before_call(at(20)), Ok(CircuitPermit::HalfOpenProbe));
    assert_eq!(breaker.before_call(at(20)), Err(Error::CircuitOpen));
    assert_eq!(breaker.before_call(at(1_000)), Err(Error::CircuitOpen));
}

#[test]
fn a_failed_probe_opens_the_circuit_for_the_whole_delay() {
    let mut breaker = breaker(1, 1.0, 10);
    breaker.after_call(false, CircuitPermit::Closed, at(0));
    assert_eq!(breaker.before_call(at(10)), Ok(CircuitPermit::HalfOpenProbe));
    breaker.after_call(false, CircuitPermit::HalfOpenProbe, at(15));
    assert_eq!(breaker.state(), CircuitBreakerState::Open);
    assert_eq!(breaker.before_call(at(24)), Err(Error::CircuitOpen));
    assert_eq!(breaker.before_call(at(25)), Ok(CircuitPermit::HalfOpenProbe));
}

#[test]
fn a_successful_probe_clears_the_outcomes() {
    let mut breaker = breaker(2, 0.5, 10);
    record(&mut breaker, &[false, true]);
    assert_eq!(breaker.before_call(at(10)), Ok(CircuitPermit::HalfOpenProbe));
    breaker.after_call(true, CircuitPermit::HalfOpenProbe, at(11));
    assert_eq!(breaker.state(), CircuitBreakerState::Closed);
    record(&mut breaker, &[true]);
    assert_eq!(breaker.state(), CircuitBreakerState::Closed);
}

#[test]
fn a_late_outcome_is_ignored() {
    let mut breaker = breaker(1, 1.0, 10);
    breaker.after_call(false, CircuitPermit::Closed, at(0));
    breaker.after_call(false, CircuitPermit::Closed, at(9));
    assert_eq!(breaker.before_call(at(10)), Ok(CircuitPermit::HalfOpenProbe));
    breaker.after_call(true, CircuitPermit::Closed, at(11));
    assert_eq!(breaker.state(), CircuitBreakerState::HalfOpen);
}

#[test]
fn configurations_with_the_same_settings_are_equal() {
    assert_eq!(CircuitBreakerConfig::new(), CircuitBreakerConfig::default());
    assert_eq!(
        CircuitBreakerConfig::new(),
        CircuitBreakerConfig::new()
            .request_volume_threshold(20)
            .failure_ratio(FailureRatio::from_bits(0.5f64.to_bits()))
            .delay(Duration::from_secs(5))
    );
    let ratio = |value: f64| FailureRatio::from_bits(value.to_bits());
    let zero = CircuitBreakerConfig::new().failure_ratio(ratio(0.0));
    assert_eq!(zero, CircuitBreakerConfig::new().failure_ratio(ratio(-0.0)));
    assert_ne!(zero, CircuitBreakerConfig::new());
    assert_ne!(zero, zero.request_volume_threshold(3));
    assert_ne!(zero, zero.delay(Duration::from_secs(6)));
    let no_number = CircuitBreakerConfig::new().failure_ratio(ratio(f64::NAN));
    assert_eq!(no_number, no_number);
}

#[test]
fn a_ratio_that_is_no_number_opens_as_one_does() {
    let mut breaker = breaker(2, f64::NAN, 1);
    record(&mut breaker, &[true, false]);
    assert_eq!(breaker.state(), CircuitBreakerState::Closed);
    record(&mut breaker, &[false]);
    assert_eq!(breaker.state(), CircuitBreakerState::Open);
}

#[test]
fn a_bulkhead_hands_out_its_permits() {
    let bulkhead = Bulkhead::new(2);
    let first = bulkhead.try_acquire();
    let second = bulkhead.try_acquire();
    assert!(first.is_ok());
    assert!(second.is_ok());
    assert!(matches!(bulkhead.try_acquire(), Err(Error::BulkheadRejected)));
    drop(first);
    assert!(bulkhead.try_acquire().is_ok());
}

#[test]
fn a_bulkhead_of_zero_is_one() {
    let bulkhead = Bulkhead::new(0);
    let held = bulkhead.try_acquire();
    assert!(held.is_ok());
    assert!(bulkhead.try_acquire().is_err());
}

#[test]
fn clones_of_a_bulkhead_share_its_permits() {
    let bulkhead = Bulkhead::new(1);
    let other = bulkhead.clone();
    let held = bulkhead.try_acquire();
    assert!(held.is_ok());
    assert!(other.try_acquire().is_err());
    assert!(Bulkhead::new(1).try_acquire().is_ok());
}
