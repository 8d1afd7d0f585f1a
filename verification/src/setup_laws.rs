//! What builders, attributes and delays give, told from what was written.

use std::time::SystemTime;

use vstd::prelude::*;

use crate::attribute::{BulkheadAttr, CircuitBreakerAttr, PolicyAttrs, RetryAttr};
use crate::bulkhead::{admission, home_of, permits_in_all, Bulkhead};
use crate::circuit::{CircuitBreaker, CircuitBreakerConfig, ConfigView};
use crate::error::Error;
use crate::policy::{FaultTolerance, FaultToleranceBuilder, PolicyView};
use crate::ratio::clamped;
use crate::retry::{
    clock_nanos, duration_nanos, jitter_delay, jitter_delay_with, jittered, mix, mixed,
    nanos_after_epoch, nanos_duration, pseudo_random_nanos, RetryPolicy,
};
use crate::setup::{can_share, BuilderCall, ConfigCall, RetryCall, SharedParts};
use crate::time::{Duration, Instant, MAX_NANOS};

verus! {

/// A retry policy that is described by an attribute has what the attribute says,
/// milliseconds as a million nanoseconds each, and what a new policy has where it
/// says nothing.
pub proof fn law_retry_attributes_mean_what_they_say(
    retry: RetryAttr,
    described: RetryPolicy,
    fresh: RetryPolicy,
)
    requires
        call_ensures(RetryAttr::policy, (&retry,), described),
        call_ensures(RetryPolicy::new, (), fresh),
    ensures
        described@ == retry.described(),
        retry.max_retries matches Some(n) ==> described@.max_retries == n as usize,
        retry.max_retries is None ==> described@.max_retries == fresh@.max_retries,
        retry.delay_ms matches Some(ms) ==> described@.delay == ms * 1_000_000,
        retry.delay_ms is None ==> described@.delay == fresh@.delay,
        retry.jitter_ms matches Some(ms) ==> described@.jitter == ms * 1_000_000,
        retry.jitter_ms is None ==> described@.jitter == fresh@.jitter,
        retry.max_duration_ms matches Some(ms) ==> described@.max_duration == Some(
            (ms * 1_000_000) as nat,
        ),
        retry.max_duration_ms is None ==> described@.max_duration == fresh@.max_duration,
{
}

/// A circuit breaker configuration that is described by an attribute has what the
/// attribute says, and what a new configuration has where it says nothing.
pub proof fn law_circuit_breaker_attributes_mean_what_they_say(
    circuit_breaker: CircuitBreakerAttr,
    described: CircuitBreakerConfig,
    fresh: CircuitBreakerConfig,
)
    requires
        call_ensures(CircuitBreakerAttr::config, (&circuit_breaker,), described),
        call_ensures(CircuitBreakerConfig::new, (), fresh),
    ensures
        described@ == circuit_breaker.described(),
        circuit_breaker.request_volume_threshold matches Some(n) ==> {
            &&& n as usize > 0 ==> described@.request_volume_threshold == n as usize
            &&& n as usize == 0 ==> described@.request_volume_threshold == 1
        },
        circuit_breaker.request_volume_threshold is None ==> described@.request_volume_threshold
            == fresh@.request_volume_threshold,
        circuit_breaker.failure_ratio matches Some(bits) ==> described@.failure_ratio == clamped(
            bits,
        ),
        circuit_breaker.failure_ratio is None ==> described@.failure_ratio == fresh@.failure_ratio,
        circuit_breaker.delay_ms matches Some(ms) ==> described@.delay == ms * 1_000_000,
        circuit_breaker.delay_ms is None ==> described@.delay == fresh@.delay,
{
}

/// The place of a call on a retry policy in the order of such calls.
pub open spec fn retry_rank(call: RetryCall) -> int {
    match call {
        RetryCall::MaxRetries(_) => 0,
        RetryCall::Delay(_) => 1,
        RetryCall::Jitter(_) => 2,
        RetryCall::MaxDuration(_) => 3,
    }
}

/// The calls on a new retry policy are those of the arguments that were given, with
/// their numbers, each once and in order.
pub proof fn law_retry_calls_are_what_is_given(retry: RetryAttr, calls: Vec<RetryCall>)
    requires
        call_ensures(RetryAttr::calls, (&retry,), calls),
    ensures
        calls@ == retry.call_list(),
        forall|i: int|
            0 <= i < calls@.len() ==> match #[trigger] calls@[i] {
                RetryCall::MaxRetries(n) => retry.max_retries == Some(n),
                RetryCall::Delay(ms) => retry.delay_ms == Some(ms),
                RetryCall::Jitter(ms) => retry.jitter_ms == Some(ms),
                RetryCall::MaxDuration(ms) => retry.max_duration_ms == Some(ms),
            },
        forall|i: int, j: int|
            0 <= i < j < calls@.len() ==> retry_rank(#[trigger] calls@[i]) < retry_rank(
                #[trigger] calls@[j],
            ),
        calls@.len() == given(retry.max_retries) + given(retry.delay_ms) + given(retry.jitter_ms)
            + given(retry.max_duration_ms),
{
}

/// One for an argument that was given, and nothing for one that was not.
pub open spec fn given<V>(argument: Option<V>) -> int {
    if argument is Some {
        1
    } else {
        0
    }
}

/// The place of a call on a configuration in the order of such calls.
pub open spec fn config_rank(call: ConfigCall) -> int {
    match call {
        ConfigCall::RequestVolumeThreshold(_) => 0,
        ConfigCall::FailureRatio(_) => 1,
        ConfigCall::Delay(_) => 2,
    }
}

/// The calls on a new configuration are those of the arguments that were given, with
/// their values, each once and in order.
pub proof fn law_config_calls_are_what_is_given(
    circuit_breaker: CircuitBreakerAttr,
    calls: Vec<ConfigCall>,
)
    requires
        call_ensures(CircuitBreakerAttr::calls, (&circuit_breaker,), calls),
    ensures
        calls@ == circuit_breaker.call_list(),
        forall|i: int|
            0 <= i < calls@.len() ==> match #[trigger] calls@[i] {
                ConfigCall::RequestVolumeThreshold(n) => circuit_breaker.request_volume_threshold
                    == Some(n),
                ConfigCall::FailureRatio(bits) => circuit_breaker.failure_ratio == Some(bits),
                ConfigCall::Delay(ms) => circuit_breaker.delay_ms == Some(ms),
            },
        forall|i: int, j: int|
            0 <= i < j < calls@.len() ==> config_rank(#[trigger] calls@[i]) < config_rank(
                #[trigger] calls@[j],
            ),
        calls@.len() == given(circuit_breaker.request_volume_threshold) + given(
            circuit_breaker.failure_ratio,
        ) + given(circuit_breaker.delay_ms),
{
}

/// The place of a call on a builder in the order of such calls.
pub open spec fn builder_rank(call: BuilderCall) -> int {
    match call {
        BuilderCall::Timeout(_) => 0,
        BuilderCall::Retry(_) => 1,
        BuilderCall::CircuitBreaker(_) => 2,
        BuilderCall::Bulkhead(_) => 3,
    }
}

/// The calls on a new builder are those of the policies that were asked for, with
/// what is written there, each once and in order.
pub proof fn law_builder_calls_are_what_is_given(
    attributes: PolicyAttrs,
    calls: Vec<BuilderCall>,
)
    requires
        call_ensures(PolicyAttrs::builder_calls, (&attributes,), calls),
    ensures
        calls@ == attributes.call_list(),
        forall|i: int|
            0 <= i < calls@.len() ==> match #[trigger] calls@[i] {
                BuilderCall::Timeout(ms) => attributes.timeout_ms == Some(ms),
                BuilderCall::Retry(retry) => attributes.retry == Some(retry),
                BuilderCall::CircuitBreaker(circuit_breaker) => attributes.circuit_breaker == Some(
                    circuit_breaker,
                ),
                BuilderCall::Bulkhead(limit) => attributes.bulkhead == Some(
                    BulkheadAttr { max_concurrent: limit },
                ),
            },
        forall|i: int, j: int|
            0 <= i < j < calls@.len() ==> builder_rank(#[trigger] calls@[i]) < builder_rank(
                #[trigger] calls@[j],
            ),
        calls@.len() == given(attributes.timeout_ms) + given(attributes.retry) + given(
            attributes.circuit_breaker,
        ) + given(attributes.bulkhead),
{
}

/// What a call on a builder does: it sets its own policy to what is written, and
/// leaves the others.
pub proof fn law_builder_calls_set_one_policy<C>(
    call: BuilderCall,
    policy: PolicyView<C>,
    circuit_breaker: spec_fn(ConfigView) -> C,
    bulkhead: spec_fn(nat) -> Bulkhead,
)
    ensures
        ({
            let after = call.applied(policy, circuit_breaker, bulkhead);
            &&& match call {
                BuilderCall::Timeout(ms) => after.timeout == Some((ms * 1_000_000) as nat),
                BuilderCall::Retry(retry) => after.retry == Some(retry.described()),
                BuilderCall::CircuitBreaker(attribute) => after.circuit_breaker == Some(
                    circuit_breaker(attribute.described()),
                ),
                BuilderCall::Bulkhead(limit) => after.bulkhead == Some(
                    bulkhead(
                        if limit as usize == 0 {
                            1
                        } else {
                            limit as usize as nat
                        },
                    ),
                ),
            }
            &&& !(call is Timeout) ==> after.timeout == policy.timeout
            &&& !(call is Retry) ==> after.retry == policy.retry
            &&& !(call is CircuitBreaker) ==> after.circuit_breaker == policy.circuit_breaker
            &&& !(call is Bulkhead) ==> after.bulkhead == policy.bulkhead
        }),
{
}

/// What an evaluation of attributes gives: exactly the policies that were asked
/// for, with what is written, and a shared part that is made with what is written.
pub proof fn law_evaluations_are_as_written<C: Clone, F: Fn(CircuitBreaker) -> C>(
    attributes: PolicyAttrs,
    share: F,
    before: SharedParts<C>,
    after: SharedParts<C>,
    policy: PolicyView<C>,
)
    requires
        attributes.evaluates(share, before, after, policy),
    ensures
        attributes.timeout_ms matches Some(ms) ==> policy.timeout == Some((ms * 1_000_000) as nat),
        attributes.timeout_ms is None ==> policy.timeout is None,
        attributes.retry matches Some(retry) ==> policy.retry == Some(retry.described()),
        attributes.retry is None ==> policy.retry is None,
        policy.circuit_breaker is Some <==> attributes.circuit_breaker is Some,
        policy.bulkhead is Some <==> attributes.bulkhead is Some,
        before.circuit_breaker is Some ==> after.circuit_breaker == before.circuit_breaker,
        before.bulkhead is Some ==> after.bulkhead == before.bulkhead,
        attributes.circuit_breaker is None ==> after.circuit_breaker == before.circuit_breaker,
        attributes.bulkhead is None ==> after.bulkhead == before.bulkhead,
        attributes.circuit_breaker matches Some(circuit_breaker) ==> {
            &&& after.circuit_breaker is Some
            &&& cloned(after.circuit_breaker->0, policy.circuit_breaker->0)
            &&& before.circuit_breaker is None ==> exists|breaker: CircuitBreaker|
                breaker@.config == circuit_breaker.described() && breaker@.circuit is Closed
                    && #[trigger] call_ensures(share, (breaker,), after.circuit_breaker->0)
        },
        attributes.bulkhead matches Some(bulkhead) ==> {
            &&& policy.bulkhead == after.bulkhead
            &&& before.bulkhead is None ==> permits_in_all(policy.bulkhead->0.semaphore()) == if
            bulkhead.max_concurrent as usize == 0 {
                1
            } else {
                bulkhead.max_concurrent as usize as nat
            }
        },
{
    if attributes.circuit_breaker is Some && before.circuit_breaker is None {
        let config = attributes.circuit_breaker->0.described();
        let handle = after.circuit_breaker->0;
        assert(can_share(share, config, handle));
        let breaker = choose|breaker: CircuitBreaker|
            breaker@ == crate::circuit::fresh(config) && #[trigger] call_ensures(
                share,
                (breaker,),
                handle,
            );
        assert(call_ensures(share, (breaker,), handle));
    }
}

/// Each setting of a retry policy is set by its own call, which leaves the others as
/// they were.
pub proof fn law_retry_policy_calls_set_one_setting(
    policy: RetryPolicy,
    max_retries: usize,
    time: Duration,
    with_retries: RetryPolicy,
    with_delay: RetryPolicy,
    with_jitter: RetryPolicy,
    with_limit: RetryPolicy,
)
    requires
        call_ensures(RetryPolicy::max_retries, (policy, max_retries), with_retries),
        call_ensures(RetryPolicy::delay, (policy, time), with_delay),
        call_ensures(RetryPolicy::jitter, (policy, time), with_jitter),
        call_ensures(RetryPolicy::max_duration, (policy, time), with_limit),
    ensures
        with_retries@.max_retries == max_retries,
        with_retries@.delay == policy@.delay,
        with_retries@.jitter == policy@.jitter,
        with_retries@.max_duration == policy@.max_duration,
        with_delay@.delay == time@,
        with_delay@.max_retries == policy@.max_retries,
        with_delay@.jitter == policy@.jitter,
        with_delay@.max_duration == policy@.max_duration,
        with_jitter@.jitter == time@,
        with_jitter@.max_retries == policy@.max_retries,
        with_jitter@.delay == policy@.delay,
        with_jitter@.max_duration == policy@.max_duration,
        with_limit@.max_duration == Some(time@),
        with_limit@.max_retries == policy@.max_retries,
        with_limit@.delay == policy@.delay,
        with_limit@.jitter == policy@.jitter,
{
}

/// Each policy of a set is set by its own call, which leaves the others as they
/// were; a new builder has none, and what is built has what the builder had.
pub proof fn law_policy_set_calls_set_one_policy<C>(
    new: FaultToleranceBuilder<C>,
    builder: FaultToleranceBuilder<C>,
    retry: RetryPolicy,
    timeout: Duration,
    circuit_breaker: C,
    bulkhead: Bulkhead,
    with_retry: FaultToleranceBuilder<C>,
    with_timeout: FaultToleranceBuilder<C>,
    with_circuit_breaker: FaultToleranceBuilder<C>,
    with_bulkhead: FaultToleranceBuilder<C>,
    built: FaultTolerance<C>,
)
    requires
        call_ensures(FaultTolerance::<C>::builder, (), new),
        call_ensures(FaultToleranceBuilder::<C>::retry, (builder, retry), with_retry),
        call_ensures(FaultToleranceBuilder::<C>::timeout, (builder, timeout), with_timeout),
        call_ensures(
            FaultToleranceBuilder::<C>::circuit_breaker,
            (builder, circuit_breaker),
            with_circuit_breaker,
        ),
        call_ensures(FaultToleranceBuilder::<C>::bulkhead, (builder, bulkhead), with_bulkhead),
        call_ensures(FaultToleranceBuilder::<C>::build, (builder,), built),
    ensures
        new@.retry is None && new@.timeout is None && new@.circuit_breaker is None
            && new@.bulkhead is None,
        with_retry@.retry == Some(retry@),
        with_retry@.timeout == builder@.timeout,
        with_retry@.circuit_breaker == builder@.circuit_breaker,
        with_retry@.bulkhead == builder@.bulkhead,
        with_timeout@.timeout == Some(timeout@),
        with_timeout@.retry == builder@.retry,
        with_timeout@.circuit_breaker == builder@.circuit_breaker,
        with_timeout@.bulkhead == builder@.bulkhead,
        with_circuit_breaker@.circuit_breaker == Some(circuit_breaker),
        with_circuit_breaker@.retry == builder@.retry,
        with_circuit_breaker@.timeout == builder@.timeout,
        with_circuit_breaker@.bulkhead == builder@.bulkhead,
        with_bulkhead@.bulkhead == Some(bulkhead),
        with_bulkhead@.retry == builder@.retry,
        with_bulkhead@.timeout == builder@.timeout,
        with_bulkhead@.circuit_breaker == builder@.circuit_breaker,
        built@ == builder@,
{
}

/// The picked delay grows by one nanosecond with the random number, from the delay
/// less the jitter on, until the delay and the jitter together; then it starts over.
/// It stops at no time at all and at the longest time.
pub proof fn law_random_numbers_pick_delays_in_turn(delay: nat, jitter: nat, random: nat)
    requires
        jitter > 0,
    ensures
        random <= 2 * jitter ==> {
            let picked = jittered(delay, jitter, random);
            &&& delay + random < jitter ==> picked == 0
            &&& jitter <= delay + random <= jitter + MAX_NANOS ==> picked + jitter == delay + random
            &&& delay + random > jitter + MAX_NANOS ==> picked == MAX_NANOS
        },
        jittered(delay, jitter, random + (2 * jitter + 1)) == jittered(delay, jitter, random),
        jittered(delay, 0, random) == delay,
{
    vstd::arithmetic::div_mod::lemma_mod_add_multiples_vanish(
        random as int,
        (2 * jitter + 1) as int,
    );
    if random <= 2 * jitter {
        vstd::arithmetic::div_mod::lemma_small_mod(random, 2 * jitter + 1);
    }
}

/// The delay before a retry lies within the jitter, and without jitter is the delay.
/// The delay that a given random number picks is the one of that number.
pub proof fn law_delays_lie_within_the_jitter(
    delay: Duration,
    jitter: Duration,
    attempt: usize,
    random: u128,
    effective: Duration,
    picked: Duration,
)
    requires
        call_ensures(jitter_delay, (delay, jitter, attempt), effective),
        call_ensures(jitter_delay_with, (delay, jitter, random), picked),
    ensures
        delay@ - jitter@ <= effective@ <= delay@ + jitter@,
        delay@ - jitter@ <= picked@ <= delay@ + jitter@,
        picked@ == jittered(delay@, jitter@, random as nat),
{
}

/// A number of nanoseconds is a duration of that length where it fits in 64 bits,
/// and the longest of these where it does not.
pub proof fn law_nanoseconds_of_64_bits(nanos: u128, duration: Duration)
    requires
        call_ensures(nanos_duration, (nanos,), duration),
    ensures
        nanos <= u64::MAX ==> duration@ == nanos,
        nanos > u64::MAX ==> duration@ == u64::MAX,
{
}

/// Durations are whole nanoseconds: of seconds, milliseconds and nanoseconds, and in
/// seconds and nanoseconds again. Time passes from one reading to a later one, and
/// none does to one that is not later.
pub proof fn law_durations_are_nanoseconds(
    count: u64,
    of_secs: Duration,
    of_millis: Duration,
    of_nanos: Duration,
    duration: Duration,
    secs: u64,
    subsec: u32,
    zero: bool,
    start: Instant,
    end: Instant,
    elapsed: Duration,
)
    requires
        call_ensures(Duration::from_secs, (count,), of_secs),
        call_ensures(Duration::from_millis, (count,), of_millis),
        call_ensures(Duration::from_nanos, (count,), of_nanos),
        call_ensures(Duration::as_secs, (&duration,), secs),
        call_ensures(Duration::subsec_nanos, (&duration,), subsec),
        call_ensures(Duration::is_zero, (&duration,), zero),
        call_ensures(Instant::elapsed, (&start, end), elapsed),
    ensures
        of_secs@ == count * 1_000_000_000,
        of_millis@ == count * 1_000_000,
        of_nanos@ == count,
        duration@ == secs * 1_000_000_000 + subsec,
        subsec < 1_000_000_000,
        zero <==> duration@ == 0,
        end@ >= start@ ==> start@ + elapsed@ == end@,
        end@ <= start@ ==> elapsed@ == 0,
{
}

/// A bulkhead has as many permits as it was made for, and one where that is none. A
/// clone draws on the same permits. What its semaphore hands out it passes on, and
/// what its semaphore refuses it rejects.
pub proof fn law_bulkheads_pass_on_their_permits(
    max_concurrent: usize,
    bulkhead: Bulkhead,
    copy: Bulkhead,
    answer: Result<tokio::sync::OwnedSemaphorePermit, tokio::sync::TryAcquireError>,
    told: Result<tokio::sync::OwnedSemaphorePermit, Error<()>>,
)
    requires
        call_ensures(Bulkhead::new, (max_concurrent,), bulkhead),
        call_ensures(<Bulkhead as Clone>::clone, (&bulkhead,), copy),
        call_ensures(admission, (answer,), told),
    ensures
        max_concurrent > 0 ==> permits_in_all(bulkhead.semaphore()) == max_concurrent,
        max_concurrent == 0 ==> permits_in_all(bulkhead.semaphore()) == 1,
        copy.semaphore() == bulkhead.semaphore(),
        told is Ok <==> answer is Ok,
        answer matches Ok(permit) ==> told->Ok_0 == permit,
        answer is Err ==> told->Err_0 is BulkheadRejected,
{
}

/// What a policy set says of itself is what it has.
pub proof fn law_policy_sets_show_what_they_have<C>(
    policy: FaultTolerance<C>,
    retry: Option<RetryPolicy>,
    timeout: Option<Duration>,
    circuit_breaker: Option<&C>,
    bulkhead: Option<&Bulkhead>,
)
    requires
        call_ensures(FaultTolerance::<C>::retry, (&policy,), retry),
        call_ensures(FaultTolerance::<C>::timeout, (&policy,), timeout),
        call_ensures(FaultTolerance::<C>::circuit_breaker, (&policy,), circuit_breaker),
        call_ensures(FaultTolerance::<C>::bulkhead, (&policy,), bulkhead),
    ensures
        retry is Some <==> policy@.retry is Some,
        retry matches Some(retry) ==> policy@.retry == Some(retry@),
        timeout is Some <==> policy@.timeout is Some,
        timeout matches Some(timeout) ==> policy@.timeout == Some(timeout@),
        circuit_breaker is Some <==> policy@.circuit_breaker is Some,
        circuit_breaker matches Some(handle) ==> policy@.circuit_breaker == Some(*handle),
        bulkhead is Some <==> policy@.bulkhead is Some,
        bulkhead matches Some(bulkhead) ==> policy@.bulkhead == Some(*bulkhead),
{
}

/// Mixing by one multiplier and one shift loses nothing.
proof fn lemma_shifts_lose_nothing(first: u128, second: u128)
    ensures
        first ^ (first >> 30) == second ^ (second >> 30) ==> first == second,
        first ^ (first >> 27) == second ^ (second >> 27) ==> first == second,
        first ^ (first >> 31) == second ^ (second >> 31) ==> first == second,
{
    assert(first ^ (first >> 30) == second ^ (second >> 30) ==> first == second) by (bit_vector);
    assert(first ^ (first >> 27) == second ^ (second >> 27) ==> first == second) by (bit_vector);
    assert(first ^ (first >> 31) == second ^ (second >> 31) ==> first == second) by (bit_vector);
}

/// Multiplying by an odd number loses nothing: the inverse undoes it.
proof fn lemma_product_loses_nothing(first: u128, second: u128, factor: u128, inverse: u128)
    requires
        first.wrapping_mul(factor) == second.wrapping_mul(factor),
        (factor * inverse) % 0x1_0000_0000_0000_0000_0000_0000_0000_0000int == 1,
    ensures
        first == second,
{
    lemma_undone(first, factor, inverse);
    lemma_undone(second, factor, inverse);
}

proof fn lemma_undone(value: u128, factor: u128, inverse: u128)
    requires
        (factor * inverse) % 0x1_0000_0000_0000_0000_0000_0000_0000_0000int == 1,
    ensures
        (value.wrapping_mul(factor) * inverse) % 0x1_0000_0000_0000_0000_0000_0000_0000_0000int
            == value,
{
    let all = 0x1_0000_0000_0000_0000_0000_0000_0000_0000int;
    let product = value * factor;
    assert(value.wrapping_mul(factor) == product % all);
    vstd::arithmetic::div_mod::lemma_mul_mod_noop_left(product, inverse as int, all);
    assert(product * inverse == value * (factor * inverse)) by (nonlinear_arith)
        requires
            product == value * factor,
    ;
    vstd::arithmetic::div_mod::lemma_mul_mod_noop_right(
        value as int,
        factor * inverse,
        all,
    );
    vstd::arithmetic::div_mod::lemma_small_mod(value as nat, all as nat);
}

/// Different clock readings give different numbers for the same retry, and the number
/// of the retry acts as a change of the reading by its product with a fixed number.
pub proof fn law_mixing_loses_nothing(
    first: u128,
    second: u128,
    attempt: usize,
    first_mixed: u128,
    second_mixed: u128,
)
    requires
        call_ensures(mix, (first, attempt), first_mixed),
        call_ensures(mix, (second, attempt), second_mixed),
    ensures
        first != second ==> first_mixed != second_mixed,
        first_mixed == mixed(
            first ^ (attempt as u128).wrapping_mul(0x9e37_79b9_7f4a_7c15u128),
            0,
        ),
{
    let offset = (attempt as u128).wrapping_mul(0x9e37_79b9_7f4a_7c15u128);
    assert(0u128.wrapping_mul(0x9e37_79b9_7f4a_7c15u128) == 0);
    let moved = first ^ offset;
    assert(moved ^ 0u128 == moved) by (bit_vector);
    if first_mixed == second_mixed {
        let a = first ^ offset;
        let b = second ^ offset;
        let a1 = (a ^ (a >> 30)).wrapping_mul(0xbf58_476d_1ce4_e5b9u128);
        let b1 = (b ^ (b >> 30)).wrapping_mul(0xbf58_476d_1ce4_e5b9u128);
        let a2 = (a1 ^ (a1 >> 27)).wrapping_mul(0x94d0_49bb_1331_11ebu128);
        let b2 = (b1 ^ (b1 >> 27)).wrapping_mul(0x94d0_49bb_1331_11ebu128);
        lemma_shifts_lose_nothing(a2, b2);
        assert(a2 == b2);
        lemma_product_loses_nothing(
            a1 ^ (a1 >> 27),
            b1 ^ (b1 >> 27),
            0x94d0_49bb_1331_11ebu128,
            0x8102a98cf567ac7319642b2d24d8ec3u128,
        );
        lemma_shifts_lose_nothing(a1, b1);
        lemma_product_loses_nothing(
            a ^ (a >> 30),
            b ^ (b >> 30),
            0xbf58_476d_1ce4_e5b9u128,
            0x78c0194c1af5723496de1b173f119089u128,
        );
        lemma_shifts_lose_nothing(a, b);
        assert(first ^ offset == second ^ offset ==> first == second) by (bit_vector);
    }
}

/// A duration of seconds and nanoseconds has both, and a reading of the clock lies as
/// far behind the origin as it was made to.
pub proof fn law_durations_and_readings_are_what_they_were_made_of(
    secs: u64,
    nanos: u32,
    duration: Duration,
    length: u128,
    reading: Instant,
)
    requires
        call_ensures(Duration::new, (secs, nanos), duration),
        call_ensures(Duration::as_nanos, (&duration,), length),
        call_ensures(Instant::at, (duration,), reading),
    ensures
        duration@ == secs * 1_000_000_000 + nanos,
        length == duration@,
        reading@ == duration@,
{
}

/// A random number is the mix of some reading of the system clock, in nanoseconds
/// after the epoch, with the number of the retry; a reading before the epoch counts
/// as none.
pub proof fn law_random_numbers_are_mixed_readings(attempt: usize, value: u128)
    requires
        call_ensures(pseudo_random_nanos, (attempt,), value),
    ensures
        exists|reading: SystemTime|
            match #[trigger] nanos_after_epoch(reading) {
                Some(nanos) => value == mixed(nanos, attempt),
                None => value == mixed(0, attempt),
            },
{
    let reading = choose|reading: SystemTime|
        value == mixed(#[trigger] clock_nanos(reading), attempt);
    assert(match nanos_after_epoch(reading) {
        Some(nanos) => value == mixed(nanos, attempt),
        None => value == mixed(0, attempt),
    });
}

/// Whether a delay is the one that a retry picks by some reading of the system clock:
/// the mix of the reading with the number of the retry is its random number. A reading
/// before the epoch counts as none.
pub open spec fn picked_by_the_clock(
    delay: nat,
    jitter: nat,
    attempt: usize,
    effective: nat,
) -> bool {
    exists|reading: SystemTime|
        match #[trigger] nanos_after_epoch(reading) {
            Some(nanos) => effective == jittered(delay, jitter, mixed(nanos, attempt) as nat),
            None => effective == jittered(delay, jitter, mixed(0, attempt) as nat),
        }
}

/// The delay before a retry is picked by the clock, from the delay and the jitter of
/// the policy.
pub proof fn law_delays_are_picked_by_the_clock(
    policy: RetryPolicy,
    attempt: usize,
    effective: Duration,
    delay: Duration,
    jitter: Duration,
    picked: Duration,
)
    requires
        call_ensures(RetryPolicy::delay_for_attempt, (policy, attempt), effective),
        call_ensures(jitter_delay, (delay, jitter, attempt), picked),
    ensures
        picked_by_the_clock(policy@.delay, policy@.jitter, attempt, effective@),
        picked_by_the_clock(delay@, jitter@, attempt, picked@),
{
    let reading = choose|reading: SystemTime|
        effective@ == jittered(
            policy@.delay,
            policy@.jitter,
            mixed(#[trigger] clock_nanos(reading), attempt) as nat,
        );
    assert(match nanos_after_epoch(reading) {
        Some(nanos) => effective@ == jittered(
            policy@.delay,
            policy@.jitter,
            mixed(nanos, attempt) as nat,
        ),
        None => effective@ == jittered(policy@.delay, policy@.jitter, mixed(0, attempt) as nat),
    });
    let reading = choose|reading: SystemTime|
        picked@ == jittered(
            delay@,
            jitter@,
            mixed(#[trigger] clock_nanos(reading), attempt) as nat,
        );
    assert(match nanos_after_epoch(reading) {
        Some(nanos) => picked@ == jittered(delay@, jitter@, mixed(nanos, attempt) as nat),
        None => picked@ == jittered(delay@, jitter@, mixed(0, attempt) as nat),
    });
}

/// A new retry policy makes three retries, at once and without a limit of time; so
/// does the default one.
pub proof fn law_what_retry_policies_start_from(new: RetryPolicy, default: RetryPolicy)
    requires
        call_ensures(RetryPolicy::new, (), new),
        call_ensures(<RetryPolicy as Default>::default, (), default),
    ensures
        new@.max_retries == 3,
        new@.delay == 0,
        new@.jitter == 0,
        new@.max_duration is None,
        default@ == new@,
{
}

/// No time has no nanoseconds, and every time has the nanoseconds of its length.
pub proof fn law_nanoseconds_of_a_time(zero: Duration, duration: Duration, nanos: u128)
    requires
        call_ensures(Duration::zero, (), zero),
        call_ensures(duration_nanos, (duration,), nanos),
    ensures
        zero@ == 0,
        nanos == duration@,
{
}

/// A bulkhead asks its own semaphore, and tells the call what that answered: it hands
/// on the permit where there is one, and rejects the call where there is none.
pub proof fn law_bulkheads_ask_their_semaphore(
    bulkhead: Bulkhead,
    acquired: Result<tokio::sync::OwnedSemaphorePermit, Error<()>>,
)
    requires
        call_ensures(Bulkhead::try_acquire, (&bulkhead,), acquired),
    ensures
        exists|answer: Result<tokio::sync::OwnedSemaphorePermit, tokio::sync::TryAcquireError>|
            {
                &&& #[trigger] call_ensures(
                    tokio::sync::Semaphore::try_acquire_owned,
                    (bulkhead.handle(),),
                    answer,
                )
                &&& acquired is Ok <==> answer is Ok
                &&& answer matches Ok(permit) ==> acquired->Ok_0 == permit
            },
        acquired matches Ok(permit) ==> home_of(permit) == bulkhead.semaphore(),
        acquired matches Err(error) ==> error is BulkheadRejected,
{
}

/// What the attributes of a method build for a call: exactly the policies that were
/// asked for, with what is written. A part that calls share is made with what is
/// written where there is none yet, stays once it is there, and is the one that the
/// policies draw on.
pub proof fn law_policies_are_built_as_written<C: Clone, F: Fn(CircuitBreaker) -> C>(
    attributes: PolicyAttrs,
    parts: &mut SharedParts<C>,
    share: F,
    policy: FaultTolerance<C>,
)
    requires
        call_ensures(PolicyAttrs::policy::<C, F>, (&attributes, parts, share), policy),
    ensures
        attributes.timeout_ms is None ==> policy@.timeout is None,
        attributes.timeout_ms matches Some(ms) ==> policy@.timeout == Some((ms * 1_000_000) as nat),
        attributes.retry is None ==> policy@.retry is None,
        attributes.retry matches Some(retry) ==> policy@.retry == Some(retry.described()),
        policy@.circuit_breaker is Some <==> attributes.circuit_breaker is Some,
        policy@.bulkhead is Some <==> attributes.bulkhead is Some,
        old(parts).circuit_breaker is Some || attributes.circuit_breaker is None
            ==> final(parts).circuit_breaker == old(parts).circuit_breaker,
        old(parts).bulkhead is Some || attributes.bulkhead is None ==> final(parts).bulkhead
            == old(parts).bulkhead,
        attributes.circuit_breaker matches Some(circuit_breaker) ==> {
            &&& final(parts).circuit_breaker is Some
            &&& cloned(final(parts).circuit_breaker->0, policy@.circuit_breaker->0)
            &&& old(parts).circuit_breaker is None ==> exists|breaker: CircuitBreaker|
                breaker@.config == circuit_breaker.described() && breaker@.circuit is Closed
                    && #[trigger] call_ensures(share, (breaker,), final(parts).circuit_breaker->0)
        },
        attributes.bulkhead matches Some(bulkhead) ==> {
            &&& policy@.bulkhead == final(parts).bulkhead
            &&& old(parts).bulkhead is None && bulkhead.max_concurrent as usize > 0
                ==> permits_in_all(policy@.bulkhead->0.semaphore())
                == bulkhead.max_concurrent as usize
            &&& old(parts).bulkhead is None && bulkhead.max_concurrent as usize == 0
                ==> permits_in_all(policy@.bulkhead->0.semaphore()) == 1
        },
{
    law_evaluations_are_as_written(attributes, share, *old(parts), *final(parts), policy@);
}

/// Whether two policy sets have the same policies: of the circuit breaker's handle, one
/// has a clone.
pub open spec fn same_policies<C: Clone>(first: PolicyView<C>, second: PolicyView<C>) -> bool {
    &&& second.retry == first.retry
    &&& second.timeout == first.timeout
    &&& second.bulkhead == first.bulkhead
    &&& second.circuit_breaker is Some <==> first.circuit_breaker is Some
    &&& first.circuit_breaker is Some ==> cloned(
        first.circuit_breaker->0,
        second.circuit_breaker->0,
    )
}

/// A clone of a policy set, or of a builder, has the same policies, and the bulkhead
/// itself.
pub proof fn law_clones_have_the_same_policies<C: Clone>(
    builder: FaultToleranceBuilder<C>,
    builder_copy: FaultToleranceBuilder<C>,
    policy: FaultTolerance<C>,
    policy_copy: FaultTolerance<C>,
)
    requires
        call_ensures(<FaultToleranceBuilder<C> as Clone>::clone, (&builder,), builder_copy),
        call_ensures(<FaultTolerance<C> as Clone>::clone, (&policy,), policy_copy),
    ensures
        same_policies(builder@, builder_copy@),
        same_policies(policy@, policy_copy@),
{
}

/// By default there is no policy: not in a set, and not in a builder. Nor is there a
/// shared part before the first call.
pub proof fn law_by_default_there_is_no_policy<C>(
    builder: FaultToleranceBuilder<C>,
    policy: FaultTolerance<C>,
    parts: SharedParts<C>,
)
    requires
        call_ensures(<FaultToleranceBuilder<C> as Default>::default, (), builder),
        call_ensures(<FaultTolerance<C> as Default>::default, (), policy),
        call_ensures(SharedParts::<C>::new, (), parts),
    ensures
        builder@.retry is None && builder@.timeout is None,
        builder@.circuit_breaker is None && builder@.bulkhead is None,
        policy@.retry is None && policy@.timeout is None,
        policy@.circuit_breaker is None && policy@.bulkhead is None,
        parts.circuit_breaker is None && parts.bulkhead is None,
{
}

} // verus!
