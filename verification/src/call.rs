//! One call through a policy set, as a machine.
//!
//! A call alternates outside work (asking a shared circuit breaker, running the
//! operation, waiting) and decisions. Each [`Step`] names the outside work that
//! is due and holds the only way on: handing the result of that work back gives
//! the next step, until the call is done.

use std::time::SystemTime;

use tokio::sync::OwnedSemaphorePermit;
use vstd::prelude::*;

use crate::circuit::{law_open_circuit_rejects, BreakerView, CircuitPermit, CircuitView};
use crate::classifier::FailureClassifier;
use crate::error::Error;
use crate::policy::{optional_retry, FaultTolerance};
use crate::retry::{clock_nanos, jittered, mixed, optional_nanos, RetryPolicy, RetryPolicyView};
use crate::time::{time_between, Duration, Instant};

verus! {

/// What a call knows: its policies, when it started, and how many retries it has
/// made.
pub struct CallView {
    /// The retry configuration.
    pub retry: Option<RetryPolicyView>,
    /// The time limit of one attempt, in nanoseconds.
    pub timeout: Option<nat>,
    /// Whether a circuit breaker is asked before each attempt.
    pub circuit: bool,
    /// Whether a bulkhead is asked before each attempt.
    pub bulkhead: bool,
    /// When the call started.
    pub started_at: nat,
    /// The number of retries made so far.
    pub retries: nat,
}

impl CallView {
    /// The number of retries that the policy allows.
    pub open spec fn max_retries(self) -> nat {
        match self.retry {
            Some(retry) => retry.max_retries,
            None => 0,
        }
    }

    /// A call makes no more retries than its policy allows.
    pub open spec fn well_formed(self) -> bool {
        self.retries <= self.max_retries()
    }

    /// Whether all the time that the attempts may take is over.
    pub open spec fn out_of_time(self, now: nat) -> bool {
        self.retry matches Some(retry) && retry.max_duration matches Some(limit) && time_between(
            self.started_at,
            now,
        ) >= limit
    }
}

/// A step of a call.
pub enum StepView<T, E> {
    /// The circuit breaker is to be asked for leave.
    EnterCircuit { call: CallView },
    /// The bulkhead is to be asked for a permit.
    EnterBulkhead { call: CallView, permit: Option<CircuitPermit> },
    /// The operation is to be run.
    Run { call: CallView, permit: Option<CircuitPermit> },
    /// The circuit breaker is to be told the outcome.
    Report { call: CallView, leave: CircuitPermit, success: bool, result: Result<T, Error<E>> },
    /// A retry is due after a delay. The error is that of the attempt before.
    Backoff { call: CallView, error: Error<E> },
    /// The call is over.
    Done { result: Result<T, Error<E>> },
}

/// The result of an attempt whose operation ended with `outcome`, or was cut off
/// by the timeout where there is none.
pub open spec fn attempt_outcome<T, E>(outcome: Option<Result<T, E>>) -> Result<T, Error<E>> {
    match outcome {
        Some(Ok(value)) => Ok(value),
        Some(Err(error)) => Err(Error::Operation(error)),
        None => Err(Error::Timeout),
    }
}

/// The result of an attempt that a policy turned away.
pub open spec fn turned_away<T, E>(error: Error<()>) -> Result<T, Error<E>> {
    Err(error.as_policy_error())
}

/// The first step of an attempt: the circuit breaker goes first.
pub open spec fn attempt_started<T, E>(call: CallView) -> StepView<T, E> {
    if call.circuit {
        StepView::EnterCircuit { call }
    } else {
        circuit_passed(call, None)
    }
}

/// The step after the circuit breaker: the bulkhead, then the operation.
pub open spec fn circuit_passed<T, E>(
    call: CallView,
    permit: Option<CircuitPermit>,
) -> StepView<T, E> {
    if call.bulkhead {
        StepView::EnterBulkhead { call, permit }
    } else {
        StepView::Run { call, permit }
    }
}

/// Whether a failed attempt leaves the decision on a retry to the classifier.
pub open spec fn asks_for_retry<T, E>(call: CallView, result: Result<T, Error<E>>) -> bool {
    result is Err && call.retry is Some && call.retries < call.max_retries()
}

/// The step after an attempt with the given result: another attempt if it failed
/// with something worth a retry, retries are left, and time is left; else the
/// result is that of the call.
pub open spec fn attempt_ended<T, E>(
    call: CallView,
    result: Result<T, Error<E>>,
    retryable: bool,
    now: nat,
) -> StepView<T, E> {
    if asks_for_retry(call, result) && retryable && !call.out_of_time(now) {
        StepView::Backoff {
            call: CallView { retries: call.retries + 1, ..call },
            error: result->Err_0,
        }
    } else {
        StepView::Done { result }
    }
}

/// The step after the circuit breaker replied.
pub open spec fn circuit_replied<T, E>(
    call: CallView,
    reply: Result<CircuitPermit, Error<()>>,
    retryable: bool,
    now: nat,
) -> StepView<T, E> {
    match reply {
        Ok(permit) => circuit_passed(call, Some(permit)),
        Err(error) => attempt_ended(call, turned_away(error), retryable, now),
    }
}

/// The step after the bulkhead replied. A probe that is turned away has failed,
/// and the circuit breaker is told so; of another call it hears nothing.
pub open spec fn bulkhead_replied<T, E>(
    call: CallView,
    permit: Option<CircuitPermit>,
    reply: Result<(), Error<()>>,
    retryable: bool,
    now: nat,
) -> StepView<T, E> {
    match reply {
        Ok(()) => StepView::Run { call, permit },
        Err(error) => match permit {
            Some(CircuitPermit::HalfOpenProbe) => probe_lost(call, error),
            _ => attempt_ended(call, turned_away(error), retryable, now),
        },
    }
}

/// The step after the bulkhead turned a probe away: the circuit breaker gets its
/// leave back, with a failure.
pub open spec fn probe_lost<T, E>(call: CallView, error: Error<()>) -> StepView<T, E> {
    StepView::Report {
        call,
        leave: CircuitPermit::HalfOpenProbe,
        success: false,
        result: turned_away(error),
    }
}

/// The step after the wait for a retry: the next attempt if time is left; else
/// the error of the attempt before is the result of the call.
pub open spec fn wait_ended<T, E>(call: CallView, error: Error<E>, now: nat) -> StepView<T, E> {
    if call.out_of_time(now) {
        StepView::Done { result: Err(error) }
    } else {
        attempt_started(call)
    }
}

/// The step after an attempt that the circuit breaker gave leave for, and whose
/// operation ran: the breaker is told of a success, or of a failure that counts.
pub open spec fn outcome_reported<T, E>(
    call: CallView,
    leave: CircuitPermit,
    result: Result<T, Error<E>>,
    counts: bool,
) -> StepView<T, E> {
    StepView::Report { call, leave, success: result is Ok || !counts, result }
}

/// The step after the operation ended. `counts` is whether a failure counts
/// against the circuit.
pub open spec fn operation_ended<T, E>(
    call: CallView,
    permit: Option<CircuitPermit>,
    outcome: Option<Result<T, E>>,
    counts: bool,
    retryable: bool,
    now: nat,
) -> StepView<T, E> {
    match permit {
        Some(leave) => outcome_reported(call, leave, attempt_outcome(outcome), counts),
        None => attempt_ended(call, attempt_outcome(outcome), retryable, now),
    }
}

/// Whether the classifier can find that a result counts against the circuit, or
/// not.
pub open spec fn can_find_counting<T, E>(
    classifier: &FailureClassifier<E>,
    result: Result<T, Error<E>>,
    counts: bool,
) -> bool {
    result matches Err(error) ==> classifier.can_count(error.borrowed(), counts)
}

/// Whether `next` can be the step after an attempt with the given result, by
/// what the classifier can say of a retry where it is asked.
pub open spec fn can_follow_attempt<T, E>(
    classifier: &FailureClassifier<E>,
    call: CallView,
    result: Result<T, Error<E>>,
    now: nat,
    next: StepView<T, E>,
) -> bool {
    exists|retryable: bool| #[trigger]
        can_find_retryable(classifier, call, result, retryable) && next == attempt_ended(
            call,
            result,
            retryable,
            now,
        )
}

/// Whether the classifier, where it is asked, can find a result worth a retry, or
/// not.
pub open spec fn can_find_retryable<T, E>(
    classifier: &FailureClassifier<E>,
    call: CallView,
    result: Result<T, Error<E>>,
    retryable: bool,
) -> bool {
    asks_for_retry(call, result) ==> classifier.can_retry(
        result->Err_0.borrowed(),
        retryable,
    )
}

#[derive(Debug, Clone, Copy)]
struct Call {
    retry: Option<RetryPolicy>,
    timeout: Option<Duration>,
    circuit: bool,
    bulkhead: bool,
    started_at: Instant,
    retries: usize,
}

impl Call {
    spec fn view(&self) -> CallView {
        CallView {
            retry: optional_retry(self.retry),
            timeout: optional_nanos(self.timeout),
            circuit: self.circuit,
            bulkhead: self.bulkhead,
            started_at: self.started_at@,
            retries: self.retries as nat,
        }
    }

    fn start_attempt<T, E>(self) -> (step: Step<T, E>)
        ensures
            step@ == attempt_started::<T, E>(self.view()),
            step.slot() is None,
    {
        if self.circuit {
            Step::EnterCircuit(EnteringCircuit { call: self })
        } else {
            self.pass_circuit(None)
        }
    }

    fn pass_circuit<T, E>(self, permit: Option<CircuitPermit>) -> (step: Step<T, E>)
        ensures
            step@ == circuit_passed::<T, E>(self.view(), permit),
            step.slot() is None,
    {
        if self.bulkhead {
            Step::EnterBulkhead(EnteringBulkhead { call: self, permit })
        } else {
            Step::Run(Running { call: self, permit, slot: None })
        }
    }

    fn end_attempt<T, E>(
        self,
        classifier: &FailureClassifier<E>,
        result: Result<T, Error<E>>,
        now: Instant,
    ) -> (step: Step<T, E>)
        ensures
            can_follow_attempt(classifier, self.view(), result, now@, step@),
            step.slot() is None,
    {
        let error = match result {
            Ok(value) => {
                assert(can_find_retryable(classifier, self.view(), result, false));
                return Step::Done(Ok(value));
            },
            Err(error) => error,
        };
        let retry = match self.retry {
            Some(retry) => retry,
            None => {
                assert(can_find_retryable(classifier, self.view(), result, false));
                return Step::Done(Err(error));
            },
        };
        let retryable = self.retries < retry.retry_limit() && classifier.should_retry(
            error.as_ref(),
        );
        assert(can_find_retryable(classifier, self.view(), result, retryable));
        if !retryable || retry.is_out_of_time(self.started_at.elapsed(now)) {
            return Step::Done(Err(error));
        }
        Step::Backoff(BackingOff { call: Call { retries: self.retries + 1, ..self }, error })
    }

    fn is_out_of_time(&self, now: Instant) -> (out: bool)
        ensures
            out == self.view().out_of_time(now@),
    {
        match self.retry {
            Some(retry) => retry.is_out_of_time(self.started_at.elapsed(now)),
            None => false,
        }
    }
}

/// A step of a call: the outside work that is due, and the way on.
#[verifier::reject_recursive_types(E)]
pub enum Step<T, E> {
    /// Ask the circuit breaker for leave.
    EnterCircuit(EnteringCircuit),
    /// Ask the bulkhead for a permit.
    EnterBulkhead(EnteringBulkhead),
    /// Run the operation.
    Run(Running),
    /// Tell the circuit breaker the outcome.
    Report(Reporting<T, E>),
    /// Wait before the next attempt.
    Backoff(BackingOff<E>),
    /// The call is over with this result.
    Done(Result<T, Error<E>>),
}

impl<T, E> View for Step<T, E> {
    type V = StepView<T, E>;

    open spec fn view(&self) -> StepView<T, E> {
        match *self {
            Step::EnterCircuit(step) => StepView::EnterCircuit { call: step.call() },
            Step::EnterBulkhead(step) => StepView::EnterBulkhead {
                call: step.call(),
                permit: step.held(),
            },
            Step::Run(step) => StepView::Run { call: step.call(), permit: step.held() },
            Step::Report(step) => StepView::Report {
                call: step.call(),
                leave: step.held(),
                success: step.success(),
                result: step.result(),
            },
            Step::Backoff(step) => StepView::Backoff { call: step.call(), error: step.error() },
            Step::Done(result) => StepView::Done { result },
        }
    }
}

impl<T, E> Step<T, E> {
    /// The permit of the bulkhead that the call holds in this step. Only a call
    /// that runs its operation holds one.
    pub open spec fn slot(&self) -> Option<OwnedSemaphorePermit> {
        match *self {
            Step::Run(step) => step.slot(),
            _ => None,
        }
    }
}

/// A call that is to ask the circuit breaker for leave.
#[derive(Debug)]
pub struct EnteringCircuit {
    call: Call,
}

impl EnteringCircuit {
    /// What the call knows.
    pub closed spec fn call(&self) -> CallView {
        self.call.view()
    }

    /// Goes on with the reply of the circuit breaker.
    pub fn replied<T, E>(
        self,
        reply: Result<CircuitPermit, Error<()>>,
        classifier: &FailureClassifier<E>,
        now: Instant,
    ) -> (step: Step<T, E>)
        requires
            reply matches Err(error) ==> !(error is Operation),
        ensures
            match reply {
                Ok(permit) => step@ == circuit_passed::<T, E>(self.call(), Some(permit)),
                Err(error) => can_follow_attempt(
                    classifier,
                    self.call(),
                    turned_away::<T, E>(error),
                    now@,
                    step@,
                ),
            },
            step.slot() is None,
    {
        match reply {
            Ok(permit) => self.call.pass_circuit(Some(permit)),
            Err(error) => {
                self.call.end_attempt(classifier, Err(error.map_operation_error()), now)
            },
        }
    }
}

/// A call that is to ask the bulkhead for a permit.
#[derive(Debug)]
pub struct EnteringBulkhead {
    call: Call,
    permit: Option<CircuitPermit>,
}

impl EnteringBulkhead {
    #[verifier::type_invariant]
    spec fn has_a_bulkhead(self) -> bool {
        self.call.bulkhead
    }

    /// What the call knows.
    pub closed spec fn call(&self) -> CallView {
        self.call.view()
    }

    /// The leave that the circuit breaker gave.
    pub closed spec fn held(&self) -> Option<CircuitPermit> {
        self.permit
    }

    /// Goes on with the reply of the bulkhead. A permit stays with the call while
    /// its operation runs. Where the bulkhead turns a probe away, the circuit
    /// breaker is told of a failure; where it turns another call away, the circuit
    /// breaker gets no report.
    pub fn replied<T, E>(
        self,
        reply: Result<OwnedSemaphorePermit, Error<()>>,
        classifier: &FailureClassifier<E>,
        now: Instant,
    ) -> (step: Step<T, E>)
        requires
            reply matches Err(error) ==> !(error is Operation),
        ensures
            step.slot() == match reply {
                Ok(slot) => Some(slot),
                Err(_) => None,
            },
            step@.holds_permit() <==> reply is Ok,
            match reply {
                Ok(_) => step@ == (StepView::<T, E>::Run { call: self.call(), permit: self.held() }),
                Err(error) => match self.held() {
                    Some(CircuitPermit::HalfOpenProbe) => step@ == (StepView::<T, E>::Report {
                        call: self.call(),
                        leave: CircuitPermit::HalfOpenProbe,
                        success: false,
                        result: turned_away(error),
                    }),
                    _ => can_follow_attempt(
                        classifier,
                        self.call(),
                        turned_away::<T, E>(error),
                        now@,
                        step@,
                    ),
                },
            },
    {
        proof {
            use_type_invariant(&self);
        }
        match reply {
            Ok(slot) => Step::Run(
                Running { call: self.call, permit: self.permit, slot: Some(slot) },
            ),
            Err(error) => {
                let result = Err(error.map_operation_error());
                match self.permit {
                    Some(CircuitPermit::HalfOpenProbe) => Step::Report(
                        Reporting {
                            call: self.call,
                            permit: CircuitPermit::HalfOpenProbe,
                            success: false,
                            result,
                        },
                    ),
                    Some(CircuitPermit::Closed) | None => {
                        self.call.end_attempt(classifier, result, now)
                    },
                }
            },
        }
    }
}

/// The result of an attempt whose operation ended with `outcome`, or was cut off
/// by the timeout where there is none.
pub fn attempt_result<T, E>(outcome: Option<Result<T, E>>) -> (result: Result<T, Error<E>>)
    ensures
        result == attempt_outcome(outcome),
{
    match outcome {
        Some(Ok(value)) => Ok(value),
        Some(Err(error)) => Err(Error::Operation(error)),
        None => Err(Error::Timeout),
    }
}

/// Gives a permit of the bulkhead back: it is dropped here.
fn release(slot: Option<OwnedSemaphorePermit>) {
}

/// A call that is to run the operation. It holds a permit of the bulkhead where
/// there is one.
#[derive(Debug)]
pub struct Running {
    call: Call,
    permit: Option<CircuitPermit>,
    slot: Option<OwnedSemaphorePermit>,
}

impl Running {
    #[verifier::type_invariant]
    spec fn holds_what_it_needs(self) -> bool {
        self.slot is Some <==> self.call.bulkhead
    }

    /// The permit of the bulkhead that the call holds.
    pub closed spec fn slot(&self) -> Option<OwnedSemaphorePermit> {
        self.slot
    }

    /// What the call knows.
    pub closed spec fn call(&self) -> CallView {
        self.call.view()
    }

    /// The leave that the circuit breaker gave.
    pub closed spec fn held(&self) -> Option<CircuitPermit> {
        self.permit
    }

    /// The time limit of this attempt.
    pub fn timeout(&self) -> (timeout: Option<Duration>)
        ensures
            optional_nanos(timeout) == self.call().timeout,
    {
        self.call.timeout
    }

    /// Goes on with the outcome of the operation, or with none where the timeout
    /// cut it off. Whatever the outcome, the permit of the bulkhead goes back first.
    pub fn finished<T, E>(
        self,
        outcome: Option<Result<T, E>>,
        classifier: &FailureClassifier<E>,
        now: Instant,
    ) -> (step: Step<T, E>)
        ensures
            match self.held() {
                Some(leave) => exists|counts: bool| #[trigger]
                    can_find_counting(classifier, attempt_outcome(outcome), counts) && step@
                        == outcome_reported(self.call(), leave, attempt_outcome(outcome), counts),
                None => can_follow_attempt(
                    classifier,
                    self.call(),
                    attempt_outcome(outcome),
                    now@,
                    step@,
                ),
            },
            self.slot() is Some <==> self.call().bulkhead,
            step.slot() is None,
            !step@.holds_permit(),
    {
        proof {
            use_type_invariant(&self);
        }
        release(self.slot);
        let result = attempt_result(outcome);
        match self.permit {
            Some(permit) => {
                let success = match &result {
                    Ok(_) => true,
                    Err(error) => !classifier.is_circuit_failure(error.as_ref()),
                };
                assert(can_find_counting(classifier, result, !success));
                Step::Report(Reporting { call: self.call, permit, success, result })
            },
            None => self.call.end_attempt(classifier, result, now),
        }
    }
}

/// A call that is to tell the circuit breaker the outcome of its attempt.
#[derive(Debug)]
#[verifier::reject_recursive_types(E)]
pub struct Reporting<T, E> {
    call: Call,
    permit: CircuitPermit,
    success: bool,
    result: Result<T, Error<E>>,
}

impl<T, E> Reporting<T, E> {
    /// What the call knows.
    pub closed spec fn call(&self) -> CallView {
        self.call.view()
    }

    /// The leave that goes back to the circuit breaker.
    pub closed spec fn held(&self) -> CircuitPermit {
        self.permit
    }

    /// Whether the circuit breaker is told of a success.
    pub closed spec fn success(&self) -> bool {
        self.success
    }

    /// The result of the attempt.
    pub closed spec fn result(&self) -> Result<T, Error<E>> {
        self.result
    }

    /// The outcome for the circuit breaker, and the leave that goes back.
    pub fn report(&self) -> (report: (bool, CircuitPermit))
        ensures
            report == (self.success(), self.held()),
    {
        (self.success, self.permit)
    }

    /// Goes on once the circuit breaker has been told.
    pub fn reported(self, classifier: &FailureClassifier<E>, now: Instant) -> (step: Step<T, E>)
        ensures
            can_follow_attempt(classifier, self.call(), self.result(), now@, step@),
            step.slot() is None,
    {
        self.call.end_attempt(classifier, self.result, now)
    }
}

/// A call that is to wait before its next attempt.
#[derive(Debug)]
#[verifier::reject_recursive_types(E)]
pub struct BackingOff<E> {
    call: Call,
    error: Error<E>,
}

impl<E> BackingOff<E> {
    #[verifier::type_invariant]
    spec fn retries(self) -> bool {
        self.call.retry is Some && self.call.retries >= 1
    }

    /// What the call knows. The retry that is due is counted already.
    pub closed spec fn call(&self) -> CallView {
        self.call.view()
    }

    /// The error of the attempt before.
    pub closed spec fn error(&self) -> Error<E> {
        self.error
    }

    /// How long to wait, if at all: the retry delay, picked at random within its
    /// jitter.
    pub fn delay(&self) -> (delay: Option<Duration>)
        ensures
            self.call().retry is Some,
            exists|reading: SystemTime| ({
                let picked = jittered(
                    self.call().retry->0.delay,
                    self.call().retry->0.jitter,
                    mixed(#[trigger] clock_nanos(reading), self.call().retries as usize) as nat,
                );
                match delay {
                    Some(delay) => delay@ == picked && picked > 0,
                    None => picked == 0,
                }
            }),
            ({
                let waited = match delay {
                    Some(delay) => delay@,
                    None => 0,
                };
                let retry = self.call().retry->0;
                retry.delay - retry.jitter <= waited <= retry.delay + retry.jitter
            }),
    {
        proof {
            use_type_invariant(self);
        }
        assert(self.call().retries as usize == self.call.retries);
        match self.call.retry {
            Some(retry) => {
                let delay = retry.delay_for_attempt(self.call.retries);
                if delay.is_zero() {
                    None
                } else {
                    Some(delay)
                }
            },
            None => None,
        }
    }

    /// Starts the next attempt, unless the time for all attempts is over. It asks
    /// the circuit breaker and the bulkhead again, as the first one did.
    pub fn waited<T>(self, now: Instant) -> (step: Step<T, E>)
        ensures
            step@ == if self.call().out_of_time(now@) {
                StepView::<T, E>::Done { result: Err(self.error()) }
            } else {
                attempt_started(self.call())
            },
            step.slot() is None,
    {
        if self.call.is_out_of_time(now) {
            return Step::Done(Err(self.error));
        }
        self.call.start_attempt()
    }
}

impl<C> FaultTolerance<C> {
    /// What a call through this policy set knows when it starts.
    pub open spec fn new_call(&self, now: nat) -> CallView {
        CallView {
            retry: self@.retry,
            timeout: self@.timeout,
            circuit: self@.circuit_breaker is Some,
            bulkhead: self@.bulkhead is Some,
            started_at: now,
            retries: 0,
        }
    }

    /// Starts a call through this policy set at the time `now`.
    pub fn start_call<T, E>(&self, now: Instant) -> (step: Step<T, E>)
        ensures
            step@ == attempt_started::<T, E>(self.new_call(now@)),
            step.slot() is None,
    {
        let call = Call {
            retry: self.retry(),
            timeout: self.timeout(),
            circuit: self.circuit_breaker().is_some(),
            bulkhead: self.bulkhead().is_some(),
            started_at: now,
            retries: 0,
        };
        call.start_attempt()
    }
}

/// The result of the outside work of a step.
pub enum Work<T, E> {
    /// The reply of the circuit breaker.
    Circuit { admission: Result<CircuitPermit, Error<()>> },
    /// The reply of the bulkhead.
    Bulkhead { acquired: Result<(), Error<()>> },
    /// The outcome of the operation, and whether the classifier finds that a
    /// failure counts against the circuit.
    Operation { outcome: Option<Result<T, E>>, counts: bool },
    /// The circuit breaker has been told.
    Reported,
    /// The wait is over.
    Waited,
}

/// What moves a call on: the result of its outside work, what the classifier
/// finds of a retry, and the time.
pub struct Reply<T, E> {
    /// The result of the outside work.
    pub work: Work<T, E>,
    /// Whether a failure is found worth a retry.
    pub retryable: bool,
    /// The time.
    pub now: nat,
}

impl<T, E> StepView<T, E> {
    /// Whether a reply is one to this step. No reply is one to the last step.
    pub open spec fn takes(self, reply: Reply<T, E>) -> bool {
        match self {
            StepView::EnterCircuit { .. } => reply.work is Circuit,
            StepView::EnterBulkhead { .. } => reply.work is Bulkhead,
            StepView::Run { .. } => reply.work is Operation,
            StepView::Report { .. } => reply.work is Reported,
            StepView::Backoff { .. } => reply.work is Waited,
            StepView::Done { .. } => false,
        }
    }

    /// The step after a reply.
    pub open spec fn next(self, reply: Reply<T, E>) -> StepView<T, E> {
        match (self, reply.work) {
            (StepView::EnterCircuit { call }, Work::Circuit { admission }) => circuit_replied(
                call,
                admission,
                reply.retryable,
                reply.now,
            ),
            (
                StepView::EnterBulkhead { call, permit },
                Work::Bulkhead { acquired },
            ) => bulkhead_replied(call, permit, acquired, reply.retryable, reply.now),
            (StepView::Run { call, permit }, Work::Operation { outcome, counts }) => operation_ended(
                call,
                permit,
                outcome,
                counts,
                reply.retryable,
                reply.now,
            ),
            (StepView::Report { call, result, .. }, Work::Reported) => attempt_ended(
                call,
                result,
                reply.retryable,
                reply.now,
            ),
            (StepView::Backoff { call, error }, Work::Waited) => wait_ended(call, error, reply.now),
            _ => self,
        }
    }

    /// The step after a sequence of replies.
    pub open spec fn after(self, replies: Seq<Reply<T, E>>) -> StepView<T, E>
        decreases replies.len(),
    {
        if replies.len() == 0 {
            self
        } else {
            self.after(replies.drop_last()).next(replies.last())
        }
    }

    /// Whether a sequence of replies is one to this step and those after it.
    pub open spec fn takes_all(self, replies: Seq<Reply<T, E>>) -> bool
        decreases replies.len(),
    {
        replies.len() > 0 ==> {
            &&& self.takes_all(replies.drop_last())
            &&& self.after(replies.drop_last()).takes(replies.last())
        }
    }

    /// What the call knows, while it is not over.
    pub open spec fn ongoing(self) -> Option<CallView> {
        match self {
            StepView::EnterCircuit { call } => Some(call),
            StepView::EnterBulkhead { call, .. } => Some(call),
            StepView::Run { call, .. } => Some(call),
            StepView::Report { call, .. } => Some(call),
            StepView::Backoff { call, .. } => Some(call),
            StepView::Done { .. } => None,
        }
    }

    /// Whether the call holds a permit of the bulkhead: it does while its operation
    /// runs.
    pub open spec fn holds_permit(self) -> bool {
        self matches StepView::Run { call, .. } && call.bulkhead
    }

    /// What holds of every step: no more retries than allowed, and a leave of
    /// the circuit breaker exactly where there is one to ask.
    pub open spec fn well_formed(self) -> bool {
        &&& self.ongoing() matches Some(call) ==> call.well_formed()
        &&& match self {
            StepView::EnterCircuit { call } => call.circuit,
            StepView::EnterBulkhead { call, permit } => call.bulkhead && (permit is Some
                <==> call.circuit),
            StepView::Run { call, permit } => permit is Some <==> call.circuit,
            StepView::Report { call, .. } => call.circuit,
            StepView::Backoff { call, .. } => call.retry is Some && call.retries >= 1,
            StepView::Done { .. } => true,
        }
    }

    /// How many times the operation can still be run.
    pub open spec fn runs_left(self) -> nat {
        match self.ongoing() {
            Some(call) => {
                let retries = (call.max_retries() - call.retries) as nat;
                if self is Report {
                    retries
                } else {
                    retries + 1
                }
            },
            None => 0,
        }
    }

    /// How many replies can still come.
    pub open spec fn replies_left(self) -> nat {
        match self.ongoing() {
            Some(call) => {
                let retries = (call.max_retries() - call.retries) as nat;
                5 * retries + match self {
                    StepView::EnterCircuit { .. } => 4nat,
                    StepView::EnterBulkhead { .. } => 3,
                    StepView::Run { .. } => 2,
                    StepView::Report { .. } => 1,
                    StepView::Backoff { .. } => 5,
                    StepView::Done { .. } => 0,
                }
            },
            None => 0,
        }
    }
}

/// The number of times the operation ran.
pub open spec fn runs<T, E>(replies: Seq<Reply<T, E>>) -> nat
    decreases replies.len(),
{
    if replies.len() == 0 {
        0
    } else {
        runs(replies.drop_last()) + if replies.last().work is Operation {
            1nat
        } else {
            0nat
        }
    }
}

/// A call starts well, and every reply keeps it so.
pub proof fn law_steps_stay_well_formed<T, E>(
    call: CallView,
    step: StepView<T, E>,
    reply: Reply<T, E>,
)
    requires
        call.well_formed(),
        step.well_formed(),
        step.takes(reply),
    ensures
        attempt_started::<T, E>(call).well_formed(),
        step.next(reply).well_formed(),
{
}

/// The replies to a call: how the step and what is left of the call change.
proof fn lemma_replies<T, E>(first: StepView<T, E>, replies: Seq<Reply<T, E>>)
    requires
        first.well_formed(),
        first.takes_all(replies),
    ensures
        first.after(replies).well_formed(),
        replies.len() + first.after(replies).replies_left() <= first.replies_left(),
        runs(replies) + first.after(replies).runs_left() <= first.runs_left(),
    decreases replies.len(),
{
    if replies.len() > 0 {
        lemma_replies(first, replies.drop_last());
    }
}

/// However its attempts go, a call runs the operation at most once and once more
/// for each retry that its policy allows.
pub proof fn law_attempts_are_bounded<T, E>(call: CallView, replies: Seq<Reply<T, E>>)
    requires
        call.retries == 0,
        attempt_started::<T, E>(call).takes_all(replies),
    ensures
        runs(replies) <= call.max_retries() + 1,
{
    lemma_replies(attempt_started::<T, E>(call), replies);
}

/// A call comes to an end: it takes a bounded number of replies, and any call
/// that is not over takes another one.
pub proof fn law_call_ends<T, E>(call: CallView, replies: Seq<Reply<T, E>>)
    requires
        call.retries == 0,
        attempt_started::<T, E>(call).takes_all(replies),
    ensures
        replies.len() <= 5 * call.max_retries() + 4,
        !(attempt_started::<T, E>(call).after(replies) is Done) ==> exists|reply: Reply<T, E>|
            attempt_started::<T, E>(call).after(replies).takes(reply),
{
    lemma_replies(attempt_started::<T, E>(call), replies);
    let step = attempt_started::<T, E>(call).after(replies);
    let work = match step {
        StepView::EnterCircuit { .. } => Work::Circuit { admission: Err(Error::CircuitOpen) },
        StepView::EnterBulkhead { .. } => Work::Bulkhead { acquired: Ok(()) },
        StepView::Run { .. } => Work::Operation { outcome: None, counts: false },
        StepView::Report { .. } => Work::Reported,
        _ => Work::Waited,
    };
    let reply = Reply::<T, E> { work, retryable: false, now: 0 };
    assert(!(step is Done) ==> step.takes(reply));
}

/// Without a retry policy, and with one that allows no retry, the operation runs
/// at most once.
pub proof fn law_no_retry_runs_once<T, E>(call: CallView, replies: Seq<Reply<T, E>>)
    requires
        call.retries == 0,
        call.max_retries() == 0,
        attempt_started::<T, E>(call).takes_all(replies),
    ensures
        runs(replies) <= 1,
{
    law_attempts_are_bounded(call, replies);
}

/// A successful attempt ends the call with its value, at once or after the
/// circuit breaker has been told of the success.
pub proof fn law_success_ends_the_call<T, E>(
    call: CallView,
    permit: Option<CircuitPermit>,
    value: T,
    reply: Reply<T, E>,
    reported: Reply<T, E>,
)
    requires
        reply.work matches Work::Operation { outcome, .. } && outcome == Some(Ok::<T, E>(value)),
        reported.work is Reported,
    ensures
        ({
            let next = (StepView::<T, E>::Run { call, permit }).next(reply);
            match permit {
                None => next == (StepView::<T, E>::Done { result: Ok(value) }),
                Some(leave) => {
                    &&& next == (StepView::<T, E>::Report {
                        call,
                        leave,
                        success: true,
                        result: Ok(value),
                    })
                    &&& next.next(reported) == (StepView::<T, E>::Done { result: Ok(value) })
                },
            }
        }),
{
}

/// The result of the attempt that a reply ends, or that ended before a wait that
/// a reply ends.
pub open spec fn last_result<T, E>(
    step: StepView<T, E>,
    reply: Reply<T, E>,
) -> Option<Result<T, Error<E>>> {
    match (step, reply.work) {
        (StepView::EnterCircuit { .. }, Work::Circuit { admission: Err(error) }) => Some(
            turned_away(error),
        ),
        (StepView::EnterBulkhead { .. }, Work::Bulkhead { acquired: Err(error) }) => Some(
            turned_away(error),
        ),
        (StepView::Run { .. }, Work::Operation { outcome, .. }) => Some(attempt_outcome(outcome)),
        (StepView::Report { result, .. }, Work::Reported) => Some(result),
        (StepView::Backoff { error, .. }, Work::Waited) => Some(Err(error)),
        _ => None,
    }
}

/// A call returns the result of its last attempt, unchanged: the error of an
/// attempt is kept while a retry is waited for.
pub proof fn law_call_returns_its_last_result<T, E>(
    step: StepView<T, E>,
    reply: Reply<T, E>,
    result: Result<T, Error<E>>,
)
    requires
        step.well_formed(),
        step.takes(reply),
    ensures
        step.next(reply) == (StepView::<T, E>::Done { result }) ==> last_result(step, reply)
            == Some(result),
        step.next(reply) matches StepView::Backoff { error, .. } ==> last_result(step, reply)
            == Some(Err::<T, Error<E>>(error)),
{
}

/// A failed attempt is repeated exactly where it is found worth a retry, retries
/// are left and time is left.
pub proof fn law_when_an_attempt_is_repeated<T, E>(
    call: CallView,
    error: Error<E>,
    retryable: bool,
    now: nat,
)
    ensures
        attempt_ended::<T, E>(call, Err(error), retryable, now) is Backoff <==> {
            &&& call.retry is Some
            &&& call.retries < call.max_retries()
            &&& retryable
            &&& !call.out_of_time(now)
        },
        !(attempt_ended::<T, E>(call, Err(error), retryable, now) is Backoff)
            ==> attempt_ended::<T, E>(call, Err(error), retryable, now) == (StepView::<
            T,
            E,
        >::Done { result: Err(error) }),
{
}

/// Once the time for all attempts is over no attempt but the first starts, be it
/// over before the wait for a retry or during that wait. The call ends instead,
/// with the error of the attempt before, even where retries are left.
pub proof fn law_no_attempt_starts_after_the_time<T, E>(
    first: CallView,
    replies: Seq<Reply<T, E>>,
)
    requires
        attempt_started::<T, E>(first).takes_all(replies),
        replies.len() > 0,
        first.out_of_time(replies.last().now),
    ensures
        ({
            let before = attempt_started::<T, E>(first).after(replies.drop_last());
            let after = attempt_started::<T, E>(first).after(replies);
            &&& !(after is Backoff)
            &&& before matches StepView::Backoff { error, .. } ==> after == (StepView::<
                T,
                E,
            >::Done { result: Err(error) })
        }),
{
    let before = attempt_started::<T, E>(first).after(replies.drop_last());
    law_policies_stay_the_same(first, replies.drop_last(), before.ongoing()->0);
}

/// A later attempt starts only where a wait for a retry ends with time left, and
/// then it starts as the first one did.
pub proof fn law_when_an_attempt_starts<T, E>(step: StepView<T, E>, reply: Reply<T, E>)
    requires
        step.well_formed(),
        step.takes(reply),
    ensures
        step matches StepView::Backoff { call, error } ==> step.next(reply) == if call.out_of_time(
            reply.now,
        ) {
            StepView::<T, E>::Done { result: Err(error) }
        } else {
            attempt_started(call)
        },
        !(step is Backoff) ==> !(step.next(reply) is EnterCircuit),
        step.next(reply) matches StepView::EnterBulkhead { .. } ==> step is Backoff
            || step is EnterCircuit,
        step.next(reply) matches StepView::Run { .. } ==> step is Backoff || step is EnterCircuit
            || step is EnterBulkhead,
{
}

/// Whether replies have nothing but failures that are worth a retry.
pub open spec fn all_fail<T, E>(replies: Seq<Reply<T, E>>) -> bool {
    forall|i: int|
        0 <= i < replies.len() ==> {
            &&& (#[trigger] replies[i]).retryable
            &&& replies[i].work matches Work::Operation { outcome, .. } ==> attempt_outcome(
                outcome,
            ) is Err
        }
}

/// An operation that nothing but retries protects, and that fails every time in
/// a way that is worth a retry, runs once and once more for each retry before the
/// call gives up with an error.
pub proof fn law_persistent_failure_uses_every_retry<T, E>(
    call: CallView,
    replies: Seq<Reply<T, E>>,
)
    requires
        call.retries == 0,
        !call.circuit,
        !call.bulkhead,
        call.retry matches Some(retry) ==> retry.max_duration is None,
        attempt_started::<T, E>(call).takes_all(replies),
        all_fail(replies),
    ensures
        match attempt_started::<T, E>(call).after(replies) {
            StepView::Done { result } => result is Err && runs(replies) == call.max_retries() + 1,
            step => step.ongoing() matches Some(now) && runs(replies) == now.retries,
        },
    decreases replies.len(),
{
    let first = attempt_started::<T, E>(call);
    if replies.len() > 0 {
        let earlier = replies.drop_last();
        assert(forall|i: int| 0 <= i < earlier.len() ==> earlier[i] == replies[i]);
        law_persistent_failure_uses_every_retry(call, earlier);
        lemma_replies(first, earlier);
        let step = first.after(earlier);
        law_policies_stay_the_same(call, earlier, step.ongoing()->0);
        assert(replies[replies.len() - 1] == replies.last());
    }
}

/// Each attempt, a retry like the first, asks the circuit breaker, then the
/// bulkhead, and runs only with the leave of both.
pub proof fn law_every_attempt_asks_first<T, E>(
    step: StepView<T, E>,
    reply: Reply<T, E>,
    call: CallView,
    permit: Option<CircuitPermit>,
)
    requires
        step.well_formed(),
        step.takes(reply),
        step.next(reply) == (StepView::<T, E>::Run { call, permit }),
    ensures
        call.bulkhead ==> (reply.work matches Work::Bulkhead { acquired }
            && acquired is Ok),
        !call.bulkhead && call.circuit ==> permit is Some && reply.work == (Work::<T, E>::Circuit {
            admission: Ok(permit->0),
        }),
        !call.bulkhead && !call.circuit ==> reply.work is Waited,
{
}

/// The circuit breaker gets a report exactly of the attempts that it gave leave
/// for and whose operation ran, and of the probes that the bulkhead turned away.
/// It gets its leave back, and is told of a failure exactly where the operation
/// failed in a way that counts, or where a probe was turned away.
pub proof fn law_what_the_circuit_is_told<T, E>(step: StepView<T, E>, reply: Reply<T, E>)
    requires
        step.well_formed(),
        step.takes(reply),
    ensures
        step.next(reply) is Report <==> {
            ||| step matches StepView::Run { permit, .. } && permit is Some
            ||| step matches StepView::EnterBulkhead { permit, .. } && permit == Some(
                CircuitPermit::HalfOpenProbe,
            ) && (reply.work matches Work::Bulkhead { acquired } && acquired is Err)
        },
        step.next(reply) matches StepView::Report { leave, success, result, .. } ==> {
            match (step, reply.work) {
                (StepView::Run { permit, .. }, Work::Operation { outcome, counts }) => {
                    &&& permit == Some(leave)
                    &&& result == attempt_outcome(outcome)
                    &&& success == (result is Ok || !counts)
                },
                (StepView::EnterBulkhead { .. }, Work::Bulkhead { acquired: Err(error) }) => {
                    &&& leave == CircuitPermit::HalfOpenProbe
                    &&& result == turned_away::<T, E>(error)
                    &&& !success
                },
                _ => false,
            }
        },
{
}

/// Every probe is reported back: a call that holds the leave of a probe goes from
/// the bulkhead to the operation or to a report, and from the operation to a
/// report, with that leave.
pub proof fn law_every_probe_is_reported<T, E>(step: StepView<T, E>, reply: Reply<T, E>)
    requires
        step.takes(reply),
    ensures
        match (step, reply.work) {
            (
                StepView::EnterCircuit { call },
                Work::Circuit { admission: Ok(CircuitPermit::HalfOpenProbe) },
            ) => step.next(reply) == circuit_passed::<T, E>(
                call,
                Some(CircuitPermit::HalfOpenProbe),
            ),
            (
                StepView::EnterBulkhead { call, permit: Some(CircuitPermit::HalfOpenProbe) },
                Work::Bulkhead { acquired },
            ) => step.next(reply) == match acquired {
                Ok(()) => StepView::<T, E>::Run {
                    call,
                    permit: Some(CircuitPermit::HalfOpenProbe),
                },
                Err(error) => probe_lost(call, error),
            },
            (StepView::Run { permit: Some(CircuitPermit::HalfOpenProbe), .. }, _) => (step.next(
                reply,
            ) matches StepView::Report { leave, .. } && leave == CircuitPermit::HalfOpenProbe),
            _ => true,
        },
{
}

/// A probe that a full bulkhead turns away does not keep the circuit half-open:
/// the breaker is told of a failure, is open again from then on, and admits the
/// next probe once another delay has passed.
pub proof fn law_turned_away_probe_opens_the_circuit<T, E>(
    call: CallView,
    breaker: BreakerView,
    retryable: bool,
    now: nat,
    told: nat,
    later: nat,
)
    requires
        breaker.circuit is Open,
        breaker.delay_is_over(now),
        time_between(told, later) >= breaker.config.delay,
    ensures
        breaker.admission(now) == Ok::<CircuitPermit, Error<()>>(CircuitPermit::HalfOpenProbe),
        bulkhead_replied::<T, E>(
            call,
            Some(CircuitPermit::HalfOpenProbe),
            Err(Error::BulkheadRejected),
            retryable,
            now,
        ) == (StepView::<T, E>::Report {
            call,
            leave: CircuitPermit::HalfOpenProbe,
            success: false,
            result: Err(Error::BulkheadRejected),
        }),
        ({
            let after = breaker.entered(now).left(false, CircuitPermit::HalfOpenProbe, told);
            &&& after.circuit == (CircuitView::Open { opened_at: told })
            &&& after.admission(later) == Ok::<CircuitPermit, Error<()>>(
                CircuitPermit::HalfOpenProbe,
            )
        }),
{
}

/// The end of an attempt that failed with the given error: another attempt, or
/// that error as the result of the call.
pub open spec fn failed_with<T, E>(
    call: CallView,
    error: Error<E>,
    retryable: bool,
    now: nat,
) -> StepView<T, E> {
    if call.retry is Some && call.retries < call.max_retries() && retryable && !call.out_of_time(
        now,
    ) {
        StepView::Backoff { call: CallView { retries: call.retries + 1, ..call }, error }
    } else {
        StepView::Done { result: Err(error) }
    }
}

/// An attempt that a policy fails ends with the error of that policy, and one
/// that the circuit breaker or the bulkhead turns away does not run the
/// operation. Where the circuit breaker is owed a report, that comes first.
pub proof fn law_what_a_policy_failure_is_answered<T, E>(
    call: CallView,
    permit: Option<CircuitPermit>,
    counts: bool,
    retryable: bool,
    now: nat,
)
    ensures
        circuit_replied::<T, E>(call, Err(Error::CircuitOpen), retryable, now) == failed_with::<
            T,
            E,
        >(call, Error::CircuitOpen, retryable, now),
        bulkhead_replied::<T, E>(call, permit, Err(Error::BulkheadRejected), retryable, now)
            == match permit {
            Some(CircuitPermit::HalfOpenProbe) => StepView::Report {
                call,
                leave: CircuitPermit::HalfOpenProbe,
                success: false,
                result: Err(Error::BulkheadRejected),
            },
            _ => failed_with::<T, E>(call, Error::BulkheadRejected, retryable, now),
        },
        operation_ended::<T, E>(call, permit, None, counts, retryable, now) == match permit {
            None => failed_with::<T, E>(call, Error::Timeout, retryable, now),
            Some(leave) => StepView::Report {
                call,
                leave,
                success: !counts,
                result: Err(Error::Timeout),
            },
        },
{
}

/// While the circuit is open and its delay is not over, an attempt asks the
/// circuit breaker first, and ends at once without running the operation.
pub proof fn law_open_circuit_fails_fast<T, E>(
    call: CallView,
    breaker: BreakerView,
    retryable: bool,
    now: nat,
)
    requires
        call.circuit,
        breaker.circuit is Open,
        !breaker.delay_is_over(now),
    ensures
        attempt_started::<T, E>(call) == (StepView::<T, E>::EnterCircuit { call }),
        circuit_replied::<T, E>(call, breaker.admission(now), retryable, now) == failed_with::<
            T,
            E,
        >(call, Error::CircuitOpen, retryable, now),
        breaker.entered(now) == breaker,
{
    law_open_circuit_rejects(breaker, now);
}

/// A call keeps its policies and its start from step to step: every attempt has
/// the whole time limit of one attempt, and the time for all of them runs from
/// the start. Only the retries grow, and only by the one that is due.
pub proof fn law_policies_stay_the_same<T, E>(
    first: CallView,
    replies: Seq<Reply<T, E>>,
    call: CallView,
)
    requires
        attempt_started::<T, E>(first).takes_all(replies),
        attempt_started::<T, E>(first).after(replies).ongoing() == Some(call),
    ensures
        call == (CallView { retries: call.retries, ..first }),
        first.retries <= call.retries,
    decreases replies.len(),
{
    if replies.len() > 0 {
        let before = attempt_started::<T, E>(first).after(replies.drop_last());
        law_policies_stay_the_same(first, replies.drop_last(), before.ongoing()->0);
    }
}

/// What becomes of a call that went through its policies.
#[verifier::reject_recursive_types(E)]
pub enum FallbackStep<T, E> {
    /// The call succeeded.
    Succeeded(T),
    /// The call failed, and the fallback is to be run with the error.
    Fallback(Error<E>),
    /// The call failed, and there is no fallback for the error.
    Failed(Error<E>),
}

/// What becomes of a call whose fallback takes every failure.
pub fn fallback_step<T, E>(result: Result<T, Error<E>>) -> (step: FallbackStep<T, E>)
    ensures
        step == match result {
            Ok(value) => FallbackStep::<T, E>::Succeeded(value),
            Err(error) => FallbackStep::Fallback(error),
        },
{
    match result {
        Ok(value) => FallbackStep::Succeeded(value),
        Err(error) => FallbackStep::Fallback(error),
    }
}

/// What becomes of a call whose fallback takes the failures that the classifier
/// picks.
pub fn classified_fallback_step<T, E>(
    classifier: &FailureClassifier<E>,
    result: Result<T, Error<E>>,
) -> (step: FallbackStep<T, E>)
    ensures
        match result {
            Ok(value) => step == FallbackStep::<T, E>::Succeeded(value),
            Err(error) => {
                ||| step == FallbackStep::<T, E>::Fallback(error) && classifier.can_fallback(
                    error.borrowed(),
                    true,
                )
                ||| step == FallbackStep::<T, E>::Failed(error) && classifier.can_fallback(
                    error.borrowed(),
                    false,
                )
            },
        },
{
    match result {
        Ok(value) => FallbackStep::Succeeded(value),
        Err(error) => {
            if classifier.should_fallback(error.as_ref()) {
                FallbackStep::Fallback(error)
            } else {
                FallbackStep::Failed(error)
            }
        },
    }
}

/// The result of a call whose fallback ran: an error of the fallback is an
/// operation error.
pub fn fallback_result<T, E>(result: Result<T, E>) -> (fallen_back: Result<T, Error<E>>)
    ensures
        fallen_back == match result {
            Ok(value) => Ok::<T, Error<E>>(value),
            Err(error) => Err(Error::Operation(error)),
        },
{
    match result {
        Ok(value) => Ok(value),
        Err(error) => Err(Error::Operation(error)),
    }
}

} // verus!
