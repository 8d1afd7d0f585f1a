//! What the steps of a call lead to, told from the policies, the replies and the
//! rules of the classifier.

use std::time::SystemTime;

use vstd::prelude::*;

use crate::call::{
    attempt_result, attempt_started, classified_fallback_step, fallback_result, fallback_step,
    BackingOff, CallView, EnteringBulkhead, EnteringCircuit, FallbackStep, Reply, Reporting,
    Running, Step, StepView,
};
use crate::circuit::CircuitPermit;
use crate::classifier::{FailureClassifier, Rule};
use crate::classifier_laws::{no_can_come, yes_can_come};
use crate::error::Error;
use crate::policy::FaultTolerance;
use crate::retry::{clock_nanos, jittered, mixed, nanos_after_epoch};
use crate::setup_laws::picked_by_the_clock;
use crate::time::{Duration, Instant};

verus! {

/// Whether a call may make another attempt at a time, as far as its policy says:
/// it has a retry policy, fewer retries were made than that allows, and less time
/// than its limit has passed since the start.
pub open spec fn may_retry(call: CallView, now: nat) -> bool {
    call.retry matches Some(retry) && call.retries < retry.max_retries && (
    retry.max_duration matches Some(limit) ==> limit > 0 && now < call.started_at + limit)
}

/// The step in which a failed attempt is repeated: one more retry is counted, all
/// else stays, and the error is kept.
pub open spec fn repeated<T, E>(call: CallView, error: Error<E>) -> StepView<T, E> {
    StepView::Backoff { call: CallView { retries: call.retries + 1, ..call }, error }
}

/// Whether `step` is right after an attempt that failed with an error of any kind:
/// where the policy allows a retry, the rules on retries decide between a retry
/// and that error as the result; else the error is the result.
pub open spec fn follows_failure<T, E>(
    classifier: &FailureClassifier<E>,
    call: CallView,
    error: Error<E>,
    now: nat,
    step: StepView<T, E>,
) -> bool {
    let done = StepView::<T, E>::Done { result: Err(error) };
    if may_retry(call, now) {
        ||| step == repeated::<T, E>(call, error) && yes_can_come(
            classifier,
            Rule::AbortOn,
            Rule::RetryOn,
            error.borrowed(),
        )
        ||| step == done && no_can_come(
            classifier,
            Rule::AbortOn,
            Rule::RetryOn,
            error.borrowed(),
        )
    } else {
        step == done
    }
}

/// An error of a policy, as one of an operation: of the same kind.
pub open spec fn of_the_same_kind<E>(rejection: Error<()>) -> Error<E> {
    match rejection {
        Error::Operation(_) => arbitrary(),
        Error::Timeout => Error::Timeout,
        Error::CircuitOpen => Error::CircuitOpen,
        Error::BulkheadRejected => Error::BulkheadRejected,
    }
}

/// Every failed attempt is repeated where the policy allows it and the rules on
/// retries say so, and only there, also where it failed because a policy turned it
/// away: the circuit breaker, or the bulkhead. The error keeps its kind.
pub proof fn law_rejections_are_retried_as_failures_are<T, E>(
    circuit: EnteringCircuit,
    bulkhead: EnteringBulkhead,
    rejection: Error<()>,
    classifier: FailureClassifier<E>,
    now: Instant,
    after_circuit: Step<T, E>,
    after_bulkhead: Step<T, E>,
)
    requires
        !(rejection is Operation),
        call_ensures(
            EnteringCircuit::replied::<T, E>,
            (circuit, Err(rejection), &classifier, now),
            after_circuit,
        ),
        bulkhead.held() != Some(CircuitPermit::HalfOpenProbe),
        call_ensures(
            EnteringBulkhead::replied::<T, E>,
            (bulkhead, Err(rejection), &classifier, now),
            after_bulkhead,
        ),
    ensures
        follows_failure(
            &classifier,
            circuit.call(),
            of_the_same_kind(rejection),
            now@,
            after_circuit@,
        ),
        follows_failure(
            &classifier,
            bulkhead.call(),
            of_the_same_kind(rejection),
            now@,
            after_bulkhead@,
        ),
{
}

/// The end of an operation that no circuit breaker watches: a value is the result;
/// an error, or the timeout, is a failed attempt with that error.
pub proof fn law_unwatched_operations<T, E>(
    running: Running,
    value: T,
    error: E,
    classifier: FailureClassifier<E>,
    now: Instant,
    after_value: Step<T, E>,
    after_error: Step<T, E>,
    after_timeout: Step<T, E>,
)
    requires
        running.held() is None,
        call_ensures(
            Running::finished::<T, E>,
            (running, Some(Ok(value)), &classifier, now),
            after_value,
        ),
        call_ensures(
            Running::finished::<T, E>,
            (running, Some(Err(error)), &classifier, now),
            after_error,
        ),
        call_ensures(Running::finished::<T, E>, (running, None, &classifier, now), after_timeout),
    ensures
        after_value@ == (StepView::<T, E>::Done { result: Ok(value) }),
        follows_failure(
            &classifier,
            running.call(),
            Error::Operation(error),
            now@,
            after_error@,
        ),
        follows_failure(&classifier, running.call(), Error::Timeout, now@, after_timeout@),
{
}

/// Whether `step` reports an attempt that failed with an error to the circuit
/// breaker, with its leave: as a failure where the rules on counting let it
/// count, else as a success.
pub open spec fn reports_failure<T, E>(
    classifier: &FailureClassifier<E>,
    call: CallView,
    leave: CircuitPermit,
    error: Error<E>,
    step: StepView<T, E>,
) -> bool {
    step matches StepView::Report { call: of, leave: back, success, result } && {
        &&& of == call
        &&& back == leave
        &&& result == Err::<T, Error<E>>(error)
        &&& success ==> no_can_come(
            classifier,
            Rule::CircuitSkipOn,
            Rule::CircuitFailureOn,
            error.borrowed(),
        )
        &&& !success ==> yes_can_come(
            classifier,
            Rule::CircuitSkipOn,
            Rule::CircuitFailureOn,
            error.borrowed(),
        )
    }
}

/// The end of an operation that the circuit breaker gave leave for: the breaker is
/// told of a success for a value, and for a failure what the rules on counting
/// say of it. The result of the attempt stays.
pub proof fn law_watched_operations<T, E>(
    running: Running,
    leave: CircuitPermit,
    value: T,
    error: E,
    classifier: FailureClassifier<E>,
    now: Instant,
    after_value: Step<T, E>,
    after_error: Step<T, E>,
    after_timeout: Step<T, E>,
)
    requires
        running.held() == Some(leave),
        call_ensures(
            Running::finished::<T, E>,
            (running, Some(Ok(value)), &classifier, now),
            after_value,
        ),
        call_ensures(
            Running::finished::<T, E>,
            (running, Some(Err(error)), &classifier, now),
            after_error,
        ),
        call_ensures(Running::finished::<T, E>, (running, None, &classifier, now), after_timeout),
    ensures
        after_value@ == (StepView::<T, E>::Report {
            call: running.call(),
            leave,
            success: true,
            result: Ok(value),
        }),
        reports_failure(
            &classifier,
            running.call(),
            leave,
            Error::Operation(error),
            after_error@,
        ),
        reports_failure(&classifier, running.call(), leave, Error::Timeout, after_timeout@),
{
}

/// What is told to the circuit breaker is what the step says, and after that the
/// attempt ends as one without a breaker does: a value is the result, a failure
/// is one of that kind.
pub proof fn law_reported_attempts<T, E>(
    reporting: Reporting<T, E>,
    classifier: FailureClassifier<E>,
    now: Instant,
    report: (bool, CircuitPermit),
    step: Step<T, E>,
)
    requires
        call_ensures(Reporting::<T, E>::report, (&reporting,), report),
        call_ensures(Reporting::<T, E>::reported, (reporting, &classifier, now), step),
    ensures
        report.0 == reporting.success(),
        report.1 == reporting.held(),
        match reporting.result() {
            Ok(value) => step@ == (StepView::<T, E>::Done { result: Ok(value) }),
            Err(error) => follows_failure(&classifier, reporting.call(), error, now@, step@),
        },
{
}

/// Without rules on retries, every failed attempt is repeated as long as the
/// policy allows, with an error of whichever kind.
pub proof fn law_by_default_every_failure_is_retried<T, E>(
    classifier: FailureClassifier<E>,
    call: CallView,
    error: Error<E>,
    now: nat,
    step: StepView<T, E>,
)
    requires
        follows_failure(&classifier, call, error, now, step),
        !classifier.given(Rule::AbortOn),
        !classifier.given(Rule::RetryOn),
        may_retry(call, now),
    ensures
        step == repeated::<T, E>(call, error),
{
}

/// Where an attempt starts: at the circuit breaker if there is one, else at the
/// bulkhead if there is one, else with the operation.
pub open spec fn starts<T, E>(call: CallView, step: StepView<T, E>) -> bool {
    &&& call.circuit ==> step == (StepView::<T, E>::EnterCircuit { call })
    &&& !call.circuit && call.bulkhead ==> step == (StepView::<T, E>::EnterBulkhead {
        call,
        permit: None,
    })
    &&& !call.circuit && !call.bulkhead ==> step == (StepView::<T, E>::Run { call, permit: None })
}

/// A call starts with the policies of its set, at the given time, and with no
/// retry made: its first attempt starts whatever the time.
pub proof fn law_calls_start_with_their_policies<C, T, E>(
    policy: FaultTolerance<C>,
    now: Instant,
    step: Step<T, E>,
)
    requires
        call_ensures(FaultTolerance::<C>::start_call::<T, E>, (&policy, now), step),
    ensures
        step@.ongoing() is Some,
        ({
            let call = step@.ongoing()->0;
            &&& starts(call, step@)
            &&& call.retry == policy@.retry
            &&& call.timeout == policy@.timeout
            &&& call.circuit <==> policy@.circuit_breaker is Some
            &&& call.bulkhead <==> policy@.bulkhead is Some
            &&& call.started_at == now@
            &&& call.retries == 0
        }),
{
}

/// With the leave of the circuit breaker a call goes on to the bulkhead if there
/// is one, and else to the operation; with a permit it goes from the bulkhead to
/// the operation. The leave goes with it.
pub proof fn law_admitted_attempts_go_on<T, E>(
    circuit: EnteringCircuit,
    leave: CircuitPermit,
    bulkhead: EnteringBulkhead,
    permit: tokio::sync::OwnedSemaphorePermit,
    classifier: FailureClassifier<E>,
    now: Instant,
    after_circuit: Step<T, E>,
    after_bulkhead: Step<T, E>,
)
    requires
        call_ensures(
            EnteringCircuit::replied::<T, E>,
            (circuit, Ok(leave), &classifier, now),
            after_circuit,
        ),
        call_ensures(
            EnteringBulkhead::replied::<T, E>,
            (bulkhead, Ok(permit), &classifier, now),
            after_bulkhead,
        ),
    ensures
        circuit.call().bulkhead ==> after_circuit@ == (StepView::<T, E>::EnterBulkhead {
            call: circuit.call(),
            permit: Some(leave),
        }),
        !circuit.call().bulkhead ==> after_circuit@ == (StepView::<T, E>::Run {
            call: circuit.call(),
            permit: Some(leave),
        }),
        after_bulkhead@ == (StepView::<T, E>::Run { call: bulkhead.call(), permit: bulkhead.held() }),
        after_bulkhead.slot() == Some(permit),
{
}

/// A probe that the bulkhead turns away is reported as a failure, with its leave.
pub proof fn law_rejected_probes_are_reported<T, E>(
    bulkhead: EnteringBulkhead,
    rejection: Error<()>,
    classifier: FailureClassifier<E>,
    now: Instant,
    step: Step<T, E>,
)
    requires
        !(rejection is Operation),
        bulkhead.held() == Some(CircuitPermit::HalfOpenProbe),
        call_ensures(
            EnteringBulkhead::replied::<T, E>,
            (bulkhead, Err(rejection), &classifier, now),
            step,
        ),
    ensures
        step@ == (StepView::<T, E>::Report {
            call: bulkhead.call(),
            leave: CircuitPermit::HalfOpenProbe,
            success: false,
            result: Err(of_the_same_kind(rejection)),
        }),
{
}

/// After the wait the next attempt starts as the first one did, if the time for
/// all attempts is not over; else the kept error is the result.
pub proof fn law_waits_end<T, E>(waiting: BackingOff<E>, now: Instant, step: Step<T, E>)
    requires
        call_ensures(BackingOff::<E>::waited::<T>, (waiting, now), step),
    ensures
        ({
            let call = waiting.call();
            let limit = match call.retry {
                Some(retry) => retry.max_duration,
                None => None,
            };
            match limit {
                Some(limit) => if limit == 0 || now@ >= call.started_at + limit {
                    step@ == (StepView::<T, E>::Done { result: Err(waiting.error()) })
                } else {
                    starts(call, step@)
                },
                None => starts(call, step@),
            }
        }),
{
}

/// The wait before a retry is picked by the clock, for the number of the retry and from
/// the delay and the jitter of the policy, and lies within the jitter. There is none
/// only where no time at all is picked. An attempt has the time limit of its policy.
pub proof fn law_waits_and_time_limits<E>(
    waiting: BackingOff<E>,
    delay: Option<Duration>,
    running: Running,
    timeout: Option<Duration>,
)
    requires
        call_ensures(BackingOff::<E>::delay, (&waiting,), delay),
        call_ensures(Running::timeout, (&running,), timeout),
    ensures
        waiting.call().retry matches Some(retry) && ({
            let waited = match delay {
                Some(delay) => delay@ as int,
                None => 0,
            };
            &&& retry.delay - retry.jitter <= waited <= retry.delay + retry.jitter
            &&& picked_by_the_clock(
                retry.delay,
                retry.jitter,
                waiting.call().retries as usize,
                waited as nat,
            )
            &&& delay matches Some(delay) ==> delay@ > 0
        }),
        match timeout {
            Some(timeout) => running.call().timeout == Some(timeout@),
            None => running.call().timeout is None,
        },
{
    let retry = waiting.call().retry->0;
    let attempt = waiting.call().retries as usize;
    let waited = match delay {
        Some(delay) => delay@,
        None => 0,
    };
    let reading = choose|reading: SystemTime| ({
        let picked = jittered(
            retry.delay,
            retry.jitter,
            mixed(#[trigger] clock_nanos(reading), attempt) as nat,
        );
        match delay {
            Some(delay) => delay@ == picked && picked > 0,
            None => picked == 0,
        }
    });
    assert(match nanos_after_epoch(reading) {
        Some(nanos) => waited == jittered(
            retry.delay,
            retry.jitter,
            mixed(nanos, attempt) as nat,
        ),
        None => waited == jittered(retry.delay, retry.jitter, mixed(0, attempt) as nat),
    });
}

/// The number of waits that replies end.
pub open spec fn waits<T, E>(replies: Seq<Reply<T, E>>) -> Set<int> {
    Set::new(|i: int| 0 <= i < replies.len() && replies[i].work is Waited)
}

/// Every retry of a call is one wait: a call in any step but a wait has made as
/// many retries as it has waited before, and one that waits makes one more.
pub proof fn law_retries_are_waits<T, E>(call: CallView, replies: Seq<Reply<T, E>>)
    requires
        call.retries == 0,
        attempt_started::<T, E>(call).takes_all(replies),
    ensures
        waits(replies).finite(),
        attempt_started::<T, E>(call).after(replies).ongoing() matches Some(now) ==> now.retries
            == waits(replies).len() + if attempt_started::<T, E>(call).after(replies) is Backoff {
            1int
        } else {
            0int
        },
    decreases replies.len(),
{
    if replies.len() == 0 {
        assert(waits(replies) =~= Set::empty());
    } else {
        let earlier = replies.drop_last();
        law_retries_are_waits(call, earlier);
        if replies.last().work is Waited {
            assert(waits(replies) =~= waits(earlier).insert(replies.len() - 1));
        } else {
            assert(waits(replies) =~= waits(earlier));
        }
    }
}

/// The result of an attempt is the value of its operation, its error as an
/// operation error, or the timeout where the operation was cut off. The error of a
/// fallback is an operation error too.
pub proof fn law_results_of_operations<T, E>(
    outcome: Option<Result<T, E>>,
    result: Result<T, Error<E>>,
    fallback: Result<T, E>,
    fallen_back: Result<T, Error<E>>,
)
    requires
        call_ensures(attempt_result::<T, E>, (outcome,), result),
        call_ensures(fallback_result::<T, E>, (fallback,), fallen_back),
    ensures
        result is Ok <==> outcome matches Some(Ok(_)),
        result matches Ok(value) ==> outcome == Some(Ok::<T, E>(value)),
        result matches Err(Error::Operation(error)) ==> outcome == Some(Err::<T, E>(error)),
        result matches Err(error) ==> error is Operation || (error is Timeout && outcome is None),
        fallen_back matches Ok(value) ==> fallback == Ok::<T, E>(value),
        fallen_back matches Err(error) ==> error is Operation && fallback == Err::<T, E>(
            error->Operation_0,
        ),
{
}

/// A fallback for all failures runs on every failure, with its error; one for
/// picked failures runs on those that the rules on fallback let in, and on all
/// where there are no such rules. A success needs none.
pub proof fn law_which_failures_fall_back<T, E>(
    classifier: FailureClassifier<E>,
    value: T,
    error: Error<E>,
    plain: FallbackStep<T, E>,
    plain_success: FallbackStep<T, E>,
    picked: FallbackStep<T, E>,
    picked_success: FallbackStep<T, E>,
)
    requires
        call_ensures(fallback_step::<T, E>, (Err(error),), plain),
        call_ensures(fallback_step::<T, E>, (Ok(value),), plain_success),
        call_ensures(classified_fallback_step::<T, E>, (&classifier, Err(error)), picked),
        call_ensures(classified_fallback_step::<T, E>, (&classifier, Ok(value)), picked_success),
    ensures
        plain == FallbackStep::<T, E>::Fallback(error),
        plain_success == FallbackStep::<T, E>::Succeeded(value),
        picked_success == FallbackStep::<T, E>::Succeeded(value),
        picked == FallbackStep::<T, E>::Fallback(error) || picked == FallbackStep::<T, E>::Failed(
            error,
        ),
        picked is Fallback ==> yes_can_come(
            &classifier,
            Rule::SkipFallbackOn,
            Rule::FallbackOn,
            error.borrowed(),
        ),
        picked is Failed ==> no_can_come(
            &classifier,
            Rule::SkipFallbackOn,
            Rule::FallbackOn,
            error.borrowed(),
        ),
        !classifier.given(Rule::SkipFallbackOn) && !classifier.given(Rule::FallbackOn)
            ==> picked is Fallback,
{
}

} // verus!
