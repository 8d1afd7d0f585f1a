use axum_fault_tolerance::retry::{
    duration_nanos, jitter_delay, jitter_delay_with, mix, nanos_duration, pseudo_random_nanos,
};
use axum_fault_tolerance::{Duration, Instant, RetryPolicy};

#[test]
fn retry_jitter_stays_within_configured_bounds() {
    let delay = Duration::from_millis(50);
    let jitter = Duration::from_millis(10);

    for attempt in 1..100 {
        let effective = jitter_delay(delay, jitter, attempt);
        assert!(effective >= Duration::from_millis(40));
        assert!(effective <= Duration::from_millis(60));
    }
}

#[test]
fn mixing_gives_known_numbers() {
    assert_eq!(mix(0, 0), 0);
    assert_eq!(mix(0, 1), 16761546026157433297642007999116313903);
    assert_eq!(mix(1, 0), 147849196037467560671341166926513243621);
    assert_eq!(mix(1_700_000_000_123_456_789, 2), 230836068113177001401191410481953899771);
}

#[test]
fn a_random_number_picks_the_delay() {
    let delay = Duration::from_millis(50);
    let jitter = Duration::from_millis(10);
    let picked = |random| jitter_delay_with(delay, jitter, random).as_nanos();
    assert_eq!(picked(0), 40_000_000);
    assert_eq!(picked(10_000_000), 50_000_000);
    assert_eq!(picked(20_000_000), 60_000_000);
    assert_eq!(picked(20_000_001), 40_000_000);
    assert_eq!(picked(16761546026157433297642007999116313903), 50_648_031);
}

#[test]
fn jitter_saturates_at_zero() {
    let picked = |random| {
        jitter_delay_with(Duration::from_nanos(3), Duration::from_nanos(5), random).as_nanos()
    };
    let delays: Vec<u128> = (0..11).map(picked).collect();
    assert_eq!(delays, vec![0, 0, 0, 1, 2, 3, 4, 5, 6, 7, 8]);
}

#[test]
fn without_jitter_the_delay_stays() {
    let longest = Duration::new(u64::MAX, 999_999_999);
    assert_eq!(jitter_delay(longest, Duration::zero(), 4), longest);
    assert_eq!(jitter_delay_with(longest, Duration::zero(), 4), longest);
}

#[test]
fn long_delays_keep_their_range() {
    let longest = Duration::new(u64::MAX, 999_999_999);
    let picked = |random| jitter_delay_with(longest, Duration::from_nanos(1), random);
    assert_eq!(picked(0), Duration::new(u64::MAX, 999_999_998));
    assert_eq!(picked(1), longest);
    assert_eq!(picked(2), longest);
    let over = Duration::new(20_000_000_000, 0);
    let picked = |random| jitter_delay_with(over, Duration::from_nanos(3), random);
    assert_eq!(picked(0), Duration::new(19_999_999_999, 999_999_997));
    assert_eq!(picked(6), Duration::new(20_000_000_000, 3));
    for attempt in 1..100 {
        assert!(jitter_delay(over, Duration::from_secs(1), attempt).as_secs() >= 19_999_999_999);
    }
}

#[test]
fn a_number_of_nanoseconds_is_held_to_64_bits() {
    assert_eq!(nanos_duration(u64::MAX as u128 + 1), Duration::from_nanos(u64::MAX));
    assert_eq!(nanos_duration(17), Duration::from_nanos(17));
    assert_eq!(duration_nanos(Duration::from_secs(2)), 2_000_000_000);
}

#[test]
fn random_numbers_follow_the_clock() {
    let first = pseudo_random_nanos(1);
    let mut differs = false;
    for _ in 0..1_000_000 {
        if pseudo_random_nanos(1) != first {
            differs = true;
            break;
        }
    }
    assert!(differs);
    assert_ne!(first, mix(0, 1));
}

#[test]
fn a_policy_delays_within_its_jitter() {
    let policy = RetryPolicy::new()
        .delay(Duration::from_millis(50))
        .jitter(Duration::from_millis(10));
    for attempt in 1..100 {
        let effective = policy.delay_for_attempt(attempt);
        assert!(effective >= Duration::from_millis(40));
        assert!(effective <= Duration::from_millis(60));
    }
    let fixed = RetryPolicy::new().delay(Duration::from_millis(50));
    assert_eq!(fixed.delay_for_attempt(3), Duration::from_millis(50));
    assert!(RetryPolicy::default().delay_for_attempt(1).is_zero());
}

#[test]
fn policies_with_the_same_settings_are_equal() {
    assert_eq!(RetryPolicy::new(), RetryPolicy::default());
    assert_eq!(RetryPolicy::new(), RetryPolicy::new().max_retries(3));
    assert_ne!(RetryPolicy::new(), RetryPolicy::new().max_retries(2));
    assert_ne!(RetryPolicy::new(), RetryPolicy::new().max_duration(Duration::zero()));
}

#[test]
fn durations_convert() {
    let duration = Duration::new(3, 250_000_000);
    assert_eq!(duration.as_nanos(), 3_250_000_000);
    assert_eq!(duration.as_secs(), 3);
    assert_eq!(duration.subsec_nanos(), 250_000_000);
    assert_eq!(Duration::from_millis(3_250), duration);
    assert_eq!(Duration::from_secs(u64::MAX).as_secs(), u64::MAX);
    assert!(Duration::zero().is_zero());
    assert!(!Duration::from_nanos(1).is_zero());
}

#[test]
fn time_does_not_run_backwards() {
    let early = Instant::at(Duration::from_secs(1));
    let late = Instant::at(Duration::from_secs(3));
    assert_eq!(early.elapsed(late), Duration::from_secs(2));
    assert_eq!(late.elapsed(early), Duration::zero());
}
