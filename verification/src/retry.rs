//! Retry configuration, and the delay before a retry.

use std::time::{SystemTime, UNIX_EPOCH};

use vstd::prelude::*;

use crate::time::{Duration, MAX_NANOS, NANOS_PER_SEC};

verus! {

/// A reading of the system clock.
#[verifier::external_type_specification]
#[verifier::external_body]
pub struct ExSystemTime(SystemTime);

/// The nanoseconds from the Unix epoch to a reading of the system clock, where
/// the reading does not lie before the epoch.
pub uninterp spec fn nanos_after_epoch(reading: SystemTime) -> Option<u128>;

/// `SystemTime::now` reads the system clock. Nothing is promised of the reading.
pub assume_specification[ SystemTime::now ]() -> (now: SystemTime)
;

/// Calls `SystemTime::duration_since` with the Unix epoch, and takes the length
/// of the time in nanoseconds. The result rests on the reading alone, and is
/// named by [`nanos_after_epoch`]. Such a length holds a `u64` of seconds and less
/// than one second more.
#[verifier::external_body]
fn since_epoch(reading: SystemTime) -> (elapsed: Option<u128>)
    ensures
        elapsed == nanos_after_epoch(reading),
        elapsed matches Some(nanos) ==> nanos <= MAX_NANOS,
{
    match reading.duration_since(UNIX_EPOCH) {
        Ok(elapsed) => Some(elapsed.as_nanos()),
        Err(_) => None,
    }
}

/// A reading of the system clock as a number: its nanoseconds after the Unix
/// epoch, and 0 for a reading before it.
pub open spec fn clock_nanos(reading: SystemTime) -> u128 {
    match nanos_after_epoch(reading) {
        Some(nanos) => nanos,
        None => 0,
    }
}

/// A clock reading mixed with the number of a retry: three rounds that spread the
/// bits of both over the result.
pub open spec fn mixed(now: u128, attempt: usize) -> u128 {
    let start = now ^ (attempt as u128).wrapping_mul(0x9e37_79b9_7f4a_7c15u128);
    let first = (start ^ (start >> 30)).wrapping_mul(0xbf58_476d_1ce4_e5b9u128);
    let second = (first ^ (first >> 27)).wrapping_mul(0x94d0_49bb_1331_11ebu128);
    second ^ (second >> 31)
}

/// Mixes a clock reading with the number of a retry.
pub fn mix(now: u128, attempt: usize) -> (value: u128)
    ensures
        value == mixed(now, attempt),
{
    let mut value: u128 = now ^ (attempt as u128).wrapping_mul(0x9e37_79b9_7f4a_7c15);
    value = value ^ (value >> 30);
    value = value.wrapping_mul(0xbf58_476d_1ce4_e5b9);
    value = value ^ (value >> 27);
    value = value.wrapping_mul(0x94d0_49bb_1331_11eb);
    value ^ (value >> 31)
}

/// A number for the given retry that changes from one clock reading to the next.
pub fn pseudo_random_nanos(attempt: usize) -> (value: u128)
    ensures
        exists|reading: SystemTime| value == mixed(#[trigger] clock_nanos(reading), attempt),
{
    let reading = SystemTime::now();
    let now: u128 = match since_epoch(reading) {
        Some(nanos) => nanos,
        None => 0,
    };
    assert(now == clock_nanos(reading));
    mix(now, attempt)
}

/// The length of a duration in nanoseconds.
pub fn duration_nanos(duration: Duration) -> (nanos: u128)
    ensures
        nanos == duration@,
        nanos <= MAX_NANOS,
{
    duration.as_nanos()
}

/// A number of nanoseconds, held to the range of `u64`.
pub open spec fn capped(nanos: int) -> nat {
    if nanos <= u64::MAX {
        nanos as nat
    } else {
        u64::MAX as nat
    }
}

/// The duration of a number of nanoseconds, held to the range of `u64`.
pub fn nanos_duration(nanos: u128) -> (duration: Duration)
    ensures
        duration@ == capped(nanos as int),
{
    let longest: u128 = u64::MAX as u128;
    let capped: u128 = if nanos <= longest {
        nanos
    } else {
        longest
    };
    Duration::from_nanos(capped as u64)
}

/// The delay that a random number picks: one of the whole nanoseconds from
/// `delay - jitter` through `delay + jitter`, not below zero and not above the
/// longest duration. Without jitter it is the delay itself.
pub open spec fn jittered(delay: nat, jitter: nat, random: nat) -> nat {
    if jitter == 0 {
        delay
    } else {
        let shifted = delay - jitter + random % (2 * jitter + 1);
        if shifted < 0 {
            0
        } else if shifted > MAX_NANOS {
            MAX_NANOS as nat
        } else {
            shifted as nat
        }
    }
}

/// The duration of a number of nanoseconds, up to the longest there is.
fn saturated_duration(nanos: u128) -> (duration: Duration)
    ensures
        duration@ == if nanos <= MAX_NANOS {
            nanos
        } else {
            MAX_NANOS
        },
{
    if nanos <= u64::MAX as u128 {
        nanos_duration(nanos)
    } else if nanos <= MAX_NANOS {
        Duration::new((nanos / NANOS_PER_SEC) as u64, (nanos % NANOS_PER_SEC) as u32)
    } else {
        Duration::new(u64::MAX, 999_999_999)
    }
}

/// The delay that the random number `random` picks around `delay`.
pub fn jitter_delay_with(delay: Duration, jitter: Duration, random: u128) -> (effective: Duration)
    ensures
        effective@ == jittered(delay@, jitter@, random as nat),
        delay@ - jitter@ <= effective@ <= delay@ + jitter@,
{
    if jitter.is_zero() {
        return delay;
    }
    let delay_nanos = duration_nanos(delay);
    let jitter_nanos = duration_nanos(jitter);
    let spread: u128 = jitter_nanos * 2 + 1;
    let offset: u128 = random % spread;
    if offset <= jitter_nanos {
        saturated_duration(delay_nanos.saturating_sub(jitter_nanos - offset))
    } else {
        saturated_duration(delay_nanos + (offset - jitter_nanos))
    }
}

/// The delay before the given retry, picked at random around `delay`.
pub fn jitter_delay(delay: Duration, jitter: Duration, attempt: usize) -> (effective: Duration)
    ensures
        exists|reading: SystemTime|
            effective@ == jittered(
                delay@,
                jitter@,
                mixed(#[trigger] clock_nanos(reading), attempt) as nat,
            ),
        delay@ - jitter@ <= effective@ <= delay@ + jitter@,
{
    if jitter.is_zero() {
        proof {
            let reading: SystemTime = arbitrary();
            assert(delay@ == jittered(
                delay@,
                jitter@,
                mixed(clock_nanos(reading), attempt) as nat,
            ));
        }
        return delay;
    }
    jitter_delay_with(delay, jitter, pseudo_random_nanos(attempt))
}

/// The delay that a random number picks lies from `delay - jitter` through
/// `delay + jitter`, saturating at zero.
pub proof fn law_jitter_stays_within_bounds(delay: nat, jitter: nat, random: nat)
    requires
        delay <= MAX_NANOS,
    ensures
        delay - jitter <= jittered(delay, jitter, random) <= delay + jitter,
{
}

/// Every delay from `delay - jitter` through `delay + jitter` is picked by some
/// random number, as far as durations go.
pub proof fn law_jitter_reaches_every_delay(delay: nat, jitter: nat, wanted: nat)
    requires
        delay - jitter <= wanted <= delay + jitter,
        wanted <= MAX_NANOS,
    ensures
        exists|random: nat| #[trigger] jittered(delay, jitter, random) == wanted,
{
    let random = (wanted + jitter - delay) as nat;
    if jitter > 0 {
        vstd::arithmetic::div_mod::lemma_small_mod(random, 2 * jitter + 1);
    }
    assert(jittered(delay, jitter, random) == wanted);
}

/// What a [`RetryPolicy`] holds. Times are in nanoseconds.
pub struct RetryPolicyView {
    /// The number of retries after the initial attempt.
    pub max_retries: nat,
    /// The delay between attempts.
    pub delay: nat,
    /// The random variation of the delay.
    pub jitter: nat,
    /// The time after which no retry starts, if there is a limit. It runs from the
    /// start of the call.
    pub max_duration: Option<nat>,
}

/// The number of nanoseconds of an optional duration.
pub open spec fn optional_nanos(duration: Option<Duration>) -> Option<nat> {
    match duration {
        Some(duration) => Some(duration@),
        None => None,
    }
}

/// Retry configuration for an operation.
#[derive(Debug, Clone, Copy, PartialEq, Eq)]
pub struct RetryPolicy {
    max_retries: usize,
    delay: Duration,
    jitter: Duration,
    max_duration: Option<Duration>,
}

impl View for RetryPolicy {
    type V = RetryPolicyView;

    closed spec fn view(&self) -> RetryPolicyView {
        RetryPolicyView {
            max_retries: self.max_retries as nat,
            delay: self.delay@,
            jitter: self.jitter@,
            max_duration: optional_nanos(self.max_duration),
        }
    }
}

/// The configuration that a retry policy starts from: three retries, at once.
pub open spec fn default_retry() -> RetryPolicyView {
    RetryPolicyView { max_retries: 3, delay: 0, jitter: 0, max_duration: None }
}

impl Default for RetryPolicy {
    fn default() -> (policy: Self)
        ensures
            policy@ == default_retry(),
    {
        RetryPolicy {
            max_retries: 3,
            delay: Duration::zero(),
            jitter: Duration::zero(),
            max_duration: None,
        }
    }
}

impl RetryPolicy {
    /// Creates a retry policy with the default configuration.
    pub fn new() -> (policy: Self)
        ensures
            policy@ == default_retry(),
    {
        RetryPolicy::default()
    }

    /// Sets the maximum number of retries after the initial attempt.
    ///
    /// `max_retries(2)` permits up to three total attempts.
    pub fn max_retries(self, max_retries: usize) -> (policy: Self)
        ensures
            policy@ == (RetryPolicyView { max_retries: max_retries as nat, ..self@ }),
    {
        RetryPolicy { max_retries, ..self }
    }

    /// Sets the base delay between attempts.
    pub fn delay(self, delay: Duration) -> (policy: Self)
        ensures
            policy@ == (RetryPolicyView { delay: delay@, ..self@ }),
    {
        RetryPolicy { delay, ..self }
    }

    /// Sets the random variation applied to retry delays.
    ///
    /// Effective delays are chosen from `delay - jitter` through
    /// `delay + jitter`, saturating at zero.
    pub fn jitter(self, jitter: Duration) -> (policy: Self)
        ensures
            policy@ == (RetryPolicyView { jitter: jitter@, ..self@ }),
    {
        RetryPolicy { jitter, ..self }
    }

    /// Sets the maximum elapsed time for all attempts.
    ///
    /// This bounds the retry loop itself; a timeout bounds a single attempt.
    pub fn max_duration(self, max_duration: Duration) -> (policy: Self)
        ensures
            policy@ == (RetryPolicyView { max_duration: Some(max_duration@), ..self@ }),
    {
        RetryPolicy { max_duration: Some(max_duration), ..self }
    }

    /// The number of retries after the initial attempt.
    pub(crate) fn retry_limit(&self) -> (limit: usize)
        ensures
            limit == self@.max_retries,
    {
        self.max_retries
    }

    /// Whether `elapsed` is all the time that the attempts may take.
    pub(crate) fn is_out_of_time(&self, elapsed: Duration) -> (out: bool)
        ensures
            out == (self@.max_duration matches Some(limit) && elapsed@ >= limit),
    {
        match self.max_duration {
            Some(limit) => elapsed.as_nanos() >= limit.as_nanos(),
            None => false,
        }
    }

    /// The delay before the given retry.
    pub fn delay_for_attempt(self, attempt: usize) -> (effective: Duration)
        ensures
            exists|reading: SystemTime|
                effective@ == jittered(
                    self@.delay,
                    self@.jitter,
                    mixed(#[trigger] clock_nanos(reading), attempt) as nat,
                ),
            self@.delay - self@.jitter <= effective@ <= self@.delay + self@.jitter,
    {
        jitter_delay(self.delay, self.jitter, attempt)
    }
}

} // verus!
