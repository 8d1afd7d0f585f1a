//! What a circuit breaker does, told from the outcomes of calls and the times.

use vstd::prelude::*;
use vstd::std_specs::cmp::PartialEqSpec;

use crate::circuit::{
    after_outcomes, failures, fresh, recent, BreakerView, CircuitBreaker, CircuitBreakerConfig,
    CircuitBreakerState, CircuitPermit, CircuitView, ConfigView, SharedBreaker,
};
use crate::error::Error;
use crate::ratio::{quotient_reaches, FailureRatio};
use crate::time::{time_between, Duration, Instant};

verus! {

/// The positions from `from` up to `to` at which a call failed.
pub open spec fn failing_positions(outcomes: Seq<bool>, from: int, to: int) -> Set<int> {
    Set::new(|i: int| from <= i < to && !outcomes[i])
}

/// The positions from `from` up to `to` at which a call succeeded.
pub open spec fn succeeding_positions(outcomes: Seq<bool>, from: int, to: int) -> Set<int> {
    Set::new(|i: int| from <= i < to && outcomes[i])
}

/// The failures in a part of outcomes are the positions at which a call failed.
proof fn lemma_failures_in(outcomes: Seq<bool>, from: int, to: int)
    requires
        0 <= from <= to <= outcomes.len(),
    ensures
        failing_positions(outcomes, from, to).finite(),
        failures(outcomes.subrange(from, to)) == failing_positions(outcomes, from, to).len(),
        succeeding_positions(outcomes, from, to).finite(),
        failing_positions(outcomes, from, to).len() + succeeding_positions(
            outcomes,
            from,
            to,
        ).len() == to - from,
    decreases to - from,
{
    let failing = failing_positions(outcomes, from, to);
    let succeeding = succeeding_positions(outcomes, from, to);
    if from == to {
        assert(failing =~= Set::empty());
        assert(succeeding =~= Set::empty());
    } else {
        lemma_failures_in(outcomes, from, to - 1);
        let part = outcomes.subrange(from, to);
        assert(part.drop_last() =~= outcomes.subrange(from, to - 1));
        if outcomes[to - 1] {
            assert(failing =~= failing_positions(outcomes, from, to - 1));
            assert(succeeding =~= succeeding_positions(outcomes, from, to - 1).insert(to - 1));
        } else {
            assert(failing =~= failing_positions(outcomes, from, to - 1).insert(to - 1));
            assert(succeeding =~= succeeding_positions(outcomes, from, to - 1));
        }
    }
}

/// The number of failures among outcomes is the number of positions at which a
/// call failed. With the successes it makes up all outcomes.
pub proof fn law_failures_are_the_failed_calls(outcomes: Seq<bool>)
    ensures
        failing_positions(outcomes, 0, outcomes.len() as int).finite(),
        failures(outcomes) == failing_positions(outcomes, 0, outcomes.len() as int).len(),
        failures(outcomes) + succeeding_positions(outcomes, 0, outcomes.len() as int).len()
            == outcomes.len(),
{
    lemma_failures_in(outcomes, 0, outcomes.len() as int);
    assert(outcomes.subrange(0, outcomes.len() as int) =~= outcomes);
}

/// The failures of outcomes in two parts are those of the parts together, and the
/// order of outcomes does not matter.
pub proof fn law_failures_add_up(first: Seq<bool>, second: Seq<bool>)
    ensures
        failures(first + second) == failures(first) + failures(second),
        failures(first) == first.to_multiset().count(false),
        first.to_multiset() == second.to_multiset() ==> failures(first) == failures(second),
{
    lemma_failures_concat(first, second);
    lemma_failures_counted(first);
    lemma_failures_counted(second);
}

proof fn lemma_failures_concat(first: Seq<bool>, second: Seq<bool>)
    ensures
        failures(first + second) == failures(first) + failures(second),
    decreases second.len(),
{
    if second.len() == 0 {
        assert(first + second =~= first);
    } else {
        lemma_failures_concat(first, second.drop_last());
        assert((first + second).drop_last() =~= first + second.drop_last());
        assert((first + second).last() == second.last());
    }
}

proof fn lemma_failures_counted(outcomes: Seq<bool>)
    ensures
        failures(outcomes) == outcomes.to_multiset().count(false),
    decreases outcomes.len(),
{
    broadcast use vstd::seq_lib::group_to_multiset_ensures;

    if outcomes.len() > 0 {
        lemma_failures_counted(outcomes.drop_last());
        assert(outcomes.drop_last().push(outcomes.last()) =~= outcomes);
    }
}

/// What is remembered are the last outcomes: as many as the limit, or all where
/// there are fewer, each at its place.
pub proof fn law_recent_outcomes_are_the_last(outcomes: Seq<bool>, limit: nat)
    ensures
        recent(outcomes, limit).len() <= limit,
        recent(outcomes, limit).len() == limit || recent(outcomes, limit).len() == outcomes.len(),
        recent(outcomes, limit).len() <= outcomes.len(),
        forall|i: int|
            0 <= i < recent(outcomes, limit).len() ==> #[trigger] recent(outcomes, limit)[i]
                == outcomes[outcomes.len() - recent(outcomes, limit).len() + i],
{
}

/// Whether the calls up to `end` fill a request volume in which the ratio of failed
/// calls is reached.
pub open spec fn volume_reaches(config: ConfigView, outcomes: Seq<bool>, end: int) -> bool {
    &&& config.request_volume_threshold <= end <= outcomes.len()
    &&& quotient_reaches(
        config.failure_ratio,
        failing_positions(outcomes, end - config.request_volume_threshold, end).len(),
        config.request_volume_threshold,
    )
}

/// A circuit opens with the first call that fills a request volume in which the
/// ratio of failed calls is reached, at the time that call ended. Before that it is
/// closed, and remembers the last calls up to the volume.
pub proof fn law_which_call_opens_the_circuit(
    config: ConfigView,
    outcomes: Seq<bool>,
    times: Seq<nat>,
)
    requires
        config.request_volume_threshold >= 1,
        times.len() == outcomes.len(),
    ensures
        match after_outcomes(fresh(config), outcomes, times).circuit {
            CircuitView::Closed { outcomes: kept } => {
                &&& forall|end: int| !#[trigger] volume_reaches(config, outcomes, end)
                &&& kept.len() == config.request_volume_threshold || kept.len() == outcomes.len()
                &&& kept.len() <= config.request_volume_threshold
                &&& kept.len() <= outcomes.len()
                &&& forall|i: int|
                    0 <= i < kept.len() ==> #[trigger] kept[i] == outcomes[outcomes.len()
                        - kept.len() + i]
            },
            CircuitView::Open { opened_at } => exists|end: int|
                {
                    &&& #[trigger] volume_reaches(config, outcomes, end)
                    &&& opened_at == times[end - 1]
                    &&& forall|earlier: int|
                        earlier < end ==> !#[trigger] volume_reaches(config, outcomes, earlier)
                },
            CircuitView::HalfOpen { .. } => false,
        },
        after_outcomes(fresh(config), outcomes, times).config == config,
    decreases outcomes.len(),
{
    let threshold = config.request_volume_threshold as int;
    if outcomes.len() > 0 {
        let before = outcomes.drop_last();
        let times_before = times.drop_last();
        let last = outcomes.len() as int;
        law_which_call_opens_the_circuit(config, before, times_before);
        assert forall|end: int| end < last implies volume_reaches(config, before, end)
            == volume_reaches(config, outcomes, end) by {
            if threshold <= end {
                assert(failing_positions(before, end - threshold, end) =~= failing_positions(
                    outcomes,
                    end - threshold,
                    end,
                ));
            }
        }
        match after_outcomes(fresh(config), before, times_before).circuit {
            CircuitView::Closed { outcomes: kept } => {
                let all = kept.push(outcomes.last());
                let window = recent(all, config.request_volume_threshold);
                if last >= threshold {
                    assert(window =~= outcomes.subrange(last - threshold, last));
                    lemma_failures_in(outcomes, last - threshold, last);
                }
                if volume_reaches(config, outcomes, last) {
                    assert(times[last - 1] == times.last());
                } else {
                    assert forall|end: int| !#[trigger] volume_reaches(config, outcomes, end) by {
                        if end < last {
                            assert(!volume_reaches(config, before, end));
                        }
                    }
                }
            },
            CircuitView::Open { opened_at } => {
                let end = choose|end: int|
                    {
                        &&& #[trigger] volume_reaches(config, before, end)
                        &&& opened_at == times_before[end - 1]
                        &&& forall|earlier: int|
                            earlier < end ==> !#[trigger] volume_reaches(config, before, earlier)
                    };
                assert(volume_reaches(config, outcomes, end));
                assert(times_before[end - 1] == times[end - 1]);
                assert forall|earlier: int| earlier < end implies !#[trigger] volume_reaches(
                    config,
                    outcomes,
                    earlier,
                ) by {
                    assert(!volume_reaches(config, before, earlier));
                }
            },
            CircuitView::HalfOpen { .. } => {},
        }
    } else {
        assert(outcomes =~= Seq::empty());
    }
}

/// Who is admitted, and what that changes. A closed circuit admits every call and
/// stays. An open one admits a probe where its delay has passed since it opened,
/// and then is half-open; before, it rejects and stays. A half-open one admits a
/// probe only while none is on its way.
pub proof fn law_who_is_admitted(breaker: BreakerView, now: nat)
    ensures
        breaker.entered(now).config == breaker.config,
        match breaker.circuit {
            CircuitView::Closed { .. } => {
                &&& breaker.admission(now) == Ok::<CircuitPermit, Error<()>>(CircuitPermit::Closed)
                &&& breaker.entered(now) == breaker
            },
            CircuitView::Open { opened_at } => if breaker.config.delay == 0 || now >= opened_at
                + breaker.config.delay {
                &&& breaker.admission(now) == Ok::<CircuitPermit, Error<()>>(
                    CircuitPermit::HalfOpenProbe,
                )
                &&& breaker.entered(now).circuit == (CircuitView::HalfOpen { probe_running: true })
            } else {
                &&& breaker.admission(now) == Err::<CircuitPermit, Error<()>>(Error::CircuitOpen)
                &&& breaker.entered(now) == breaker
            },
            CircuitView::HalfOpen { probe_running: true } => {
                &&& breaker.admission(now) == Err::<CircuitPermit, Error<()>>(Error::CircuitOpen)
                &&& breaker.entered(now) == breaker
            },
            CircuitView::HalfOpen { probe_running: false } => {
                &&& breaker.admission(now) == Ok::<CircuitPermit, Error<()>>(
                    CircuitPermit::HalfOpenProbe,
                )
                &&& breaker.entered(now).circuit == (CircuitView::HalfOpen { probe_running: true })
            },
        },
{
}

/// What the outcome of a call changes. A probe closes the circuit with nothing
/// remembered, or opens it at that time. An ordinary call that ends while the
/// circuit is closed is remembered last, and the circuit opens at that time exactly
/// where the request volume is then full and the ratio of failed calls in it is
/// reached; one that ends later changes nothing.
pub proof fn law_what_an_outcome_changes(
    breaker: BreakerView,
    success: bool,
    now: nat,
)
    requires
        breaker.well_formed(),
    ensures
        breaker.left(success, CircuitPermit::Closed, now).config == breaker.config,
        breaker.left(success, CircuitPermit::HalfOpenProbe, now).config == breaker.config,
        success ==> breaker.left(success, CircuitPermit::HalfOpenProbe, now).circuit == (
        CircuitView::Closed { outcomes: Seq::empty() }),
        !success ==> breaker.left(success, CircuitPermit::HalfOpenProbe, now).circuit == (
        CircuitView::Open { opened_at: now }),
        !(breaker.circuit is Closed) ==> breaker.left(success, CircuitPermit::Closed, now)
            == breaker,
        breaker.circuit matches CircuitView::Closed { outcomes } ==> {
            let all = outcomes.push(success);
            let end = all.len() as int;
            if volume_reaches(breaker.config, all, end) {
                breaker.left(success, CircuitPermit::Closed, now).circuit == (CircuitView::Open {
                    opened_at: now,
                })
            } else {
                breaker.left(success, CircuitPermit::Closed, now).circuit
                    matches CircuitView::Closed { outcomes: kept } && {
                    &&& kept.len() >= 1
                    &&& kept.last() == success
                    &&& kept.len() == if end <= breaker.config.request_volume_threshold {
                        end
                    } else {
                        breaker.config.request_volume_threshold as int
                    }
                    &&& forall|i: int|
                        0 <= i < kept.len() ==> #[trigger] kept[i] == all[end - kept.len() + i]
                }
            }
        },
{
    if let CircuitView::Closed { outcomes } = breaker.circuit {
        let all = outcomes.push(success);
        let end = all.len() as int;
        let threshold = breaker.config.request_volume_threshold as int;
        if end >= threshold {
            assert(recent(all, threshold as nat) =~= all.subrange(end - threshold, end));
            lemma_failures_in(all, end - threshold, end);
        }
    }
}

/// The time between two readings is what the second is ahead of the first, and
/// nothing where it is not ahead.
pub proof fn law_time_between_readings(earlier: nat, later: nat, passed: nat)
    ensures
        later <= earlier ==> time_between(earlier, later) == 0,
        time_between(earlier, earlier + passed) == passed,
{
}

/// Each setting of a configuration is set by its own call, which leaves the others
/// as they were.
pub proof fn law_configuration_calls_set_one_setting(
    config: CircuitBreakerConfig,
    threshold: usize,
    ratio: FailureRatio,
    delay: Duration,
    with_threshold: CircuitBreakerConfig,
    with_ratio: CircuitBreakerConfig,
    with_delay: CircuitBreakerConfig,
)
    requires
        call_ensures(
            CircuitBreakerConfig::request_volume_threshold,
            (config, threshold),
            with_threshold,
        ),
        call_ensures(CircuitBreakerConfig::failure_ratio, (config, ratio), with_ratio),
        call_ensures(CircuitBreakerConfig::delay, (config, delay), with_delay),
    ensures
        threshold > 0 ==> with_threshold@.request_volume_threshold == threshold,
        threshold == 0 ==> with_threshold@.request_volume_threshold == 1,
        with_threshold@.failure_ratio == config@.failure_ratio,
        with_threshold@.delay == config@.delay,
        with_ratio@.failure_ratio == ratio@,
        with_ratio@.request_volume_threshold == config@.request_volume_threshold,
        with_ratio@.delay == config@.delay,
        with_delay@.delay == delay@,
        with_delay@.request_volume_threshold == config@.request_volume_threshold,
        with_delay@.failure_ratio == config@.failure_ratio,
{
}

/// A new breaker is closed, with its configuration and nothing remembered, and a
/// breaker reports the state that it is in.
pub proof fn law_breakers_report_their_state(
    config: CircuitBreakerConfig,
    new: CircuitBreaker,
    breaker: CircuitBreaker,
    state: CircuitBreakerState,
)
    requires
        call_ensures(CircuitBreaker::new, (config,), new),
        call_ensures(CircuitBreaker::state, (&breaker,), state),
    ensures
        new@.config == config@,
        new@.circuit matches CircuitView::Closed { outcomes } && outcomes.len() == 0,
        state is Closed <==> breaker@.circuit is Closed,
        state is Open <==> breaker@.circuit is Open,
        state is HalfOpen <==> breaker@.circuit is HalfOpen,
{
}

/// Configurations are equal where their settings are, and ratios where they are the
/// same number: the same pattern, or zero of either sign.
pub proof fn law_equal_configurations(first: CircuitBreakerConfig, second: CircuitBreakerConfig)
    ensures
        first.eq_spec(&second) <==> {
            &&& first@.request_volume_threshold == second@.request_volume_threshold
            &&& first@.delay == second@.delay
            &&& first@.failure_ratio == second@.failure_ratio || (first@.failure_ratio
                % 0x8000_0000_0000_0000 == 0 && second@.failure_ratio % 0x8000_0000_0000_0000 == 0)
        },
{
}

/// What asking a breaker for leave does. A closed breaker lets the call go and stays as
/// it is. An open one lets a probe go where the delay has passed since it opened, and
/// is then half-open; before that it rejects the call and stays as it is. A half-open
/// one lets a probe go only where none is on its way.
pub proof fn law_what_asking_for_leave_does(
    breaker: &mut CircuitBreaker,
    now: Instant,
    leave: Result<CircuitPermit, Error<()>>,
)
    requires
        call_ensures(CircuitBreaker::before_call, (breaker, now), leave),
    ensures
        final(breaker)@.config == old(breaker)@.config,
        leave matches Err(error) ==> error is CircuitOpen && final(breaker)@ == old(breaker)@,
        match old(breaker)@.circuit {
            CircuitView::Closed { .. } => {
                &&& leave matches Ok(permit) && permit is Closed
                &&& final(breaker)@ == old(breaker)@
            },
            CircuitView::Open { opened_at } => {
                &&& leave is Ok <==> old(breaker)@.config.delay == 0 || now@ >= opened_at
                    + old(breaker)@.config.delay
                &&& leave matches Ok(permit) ==> permit is HalfOpenProbe
                    && final(breaker)@.circuit == (CircuitView::HalfOpen { probe_running: true })
            },
            CircuitView::HalfOpen { probe_running } => {
                &&& leave is Ok <==> !probe_running
                &&& leave matches Ok(permit) ==> permit is HalfOpenProbe
                    && final(breaker)@.circuit == (CircuitView::HalfOpen { probe_running: true })
            },
        },
{
}

/// What the outcome of a probe does: it closes the breaker with nothing remembered
/// where it is a success, and opens it from then on where it is none.
pub proof fn law_what_a_probe_does(breaker: &mut CircuitBreaker, success: bool, now: Instant)
    requires
        call_ensures(
            CircuitBreaker::after_call,
            (breaker, success, CircuitPermit::HalfOpenProbe, now),
            (),
        ),
    ensures
        final(breaker)@.config == old(breaker)@.config,
        success ==> (final(breaker)@.circuit matches CircuitView::Closed { outcomes }
            && outcomes.len() == 0),
        !success ==> final(breaker)@.circuit == (CircuitView::Open { opened_at: now@ }),
{
}

/// What the outcome of an ordinary call does. A closed breaker remembers it last, and
/// opens at that time exactly where the request volume is then full and the ratio of
/// failed calls in it is reached. Another breaker stays as it is.
pub proof fn law_what_an_ordinary_outcome_does(
    breaker: &mut CircuitBreaker,
    success: bool,
    now: Instant,
)
    requires
        old(breaker)@.well_formed(),
        call_ensures(
            CircuitBreaker::after_call,
            (breaker, success, CircuitPermit::Closed, now),
            (),
        ),
    ensures
        final(breaker)@.config == old(breaker)@.config,
        !(old(breaker)@.circuit is Closed) ==> final(breaker)@ == old(breaker)@,
        old(breaker)@.circuit matches CircuitView::Closed { outcomes } ==> {
            let all = outcomes.push(success);
            let end = all.len() as int;
            let threshold = old(breaker)@.config.request_volume_threshold as int;
            if volume_reaches(old(breaker)@.config, all, end) {
                final(breaker)@.circuit == (CircuitView::Open { opened_at: now@ })
            } else {
                final(breaker)@.circuit matches CircuitView::Closed { outcomes: kept } && {
                    &&& kept.len() == if end <= threshold {
                        end
                    } else {
                        threshold
                    }
                    &&& forall|i: int|
                        0 <= i < kept.len() ==> #[trigger] kept[i] == all[end - kept.len() + i]
                }
            }
        },
{
    law_what_an_outcome_changes(old(breaker)@, success, now@);
}

/// A new configuration looks at twenty calls, opens where half of them failed, and
/// waits five seconds; so does the default one. The default breaker is closed and has
/// that configuration.
pub proof fn law_what_configurations_start_from(
    new: CircuitBreakerConfig,
    default: CircuitBreakerConfig,
    breaker: CircuitBreaker,
)
    requires
        call_ensures(CircuitBreakerConfig::new, (), new),
        call_ensures(<CircuitBreakerConfig as Default>::default, (), default),
        call_ensures(<CircuitBreaker as Default>::default, (), breaker),
    ensures
        new@.request_volume_threshold == 20,
        new@.failure_ratio == 0x3fe0_0000_0000_0000u64,
        new@.delay == 5_000_000_000,
        default@ == new@,
        breaker@.config == new@,
        breaker@.circuit matches CircuitView::Closed { outcomes } && outcomes.len() == 0,
{
}

/// A shared breaker leads to what was shared, and so does a clone of it.
pub proof fn law_shared_breakers_lead_to_what_was_shared<L>(
    guard: L,
    shared: SharedBreaker<L>,
    copy: SharedBreaker<L>,
    through: &L,
    through_copy: &L,
)
    requires
        call_ensures(SharedBreaker::<L>::new, (guard,), shared),
        call_ensures(<SharedBreaker<L> as Clone>::clone, (&shared,), copy),
        call_ensures(SharedBreaker::<L>::guard, (&shared,), through),
        call_ensures(SharedBreaker::<L>::guard, (&copy,), through_copy),
    ensures
        *through == guard,
        *through_copy == guard,
{
}

} // verus!
