//! The circuit breaker: it fails fast while a dependency recovers.

use std::collections::VecDeque;
use std::sync::Arc;

use vstd::prelude::*;

use crate::error::Error;
use crate::ratio::{quotient_reaches, same_number, FailureRatio, HALF_BITS};
use crate::time::{time_between, Duration, Instant, NANOS_PER_SEC};

verus! {

/// What a [`CircuitBreakerConfig`] holds.
pub struct ConfigView {
    /// How many recent calls are considered.
    pub request_volume_threshold: nat,
    /// The bit pattern of the ratio of failures that opens the circuit.
    pub failure_ratio: u64,
    /// How long the circuit stays open, in nanoseconds.
    pub delay: nat,
}

/// Circuit breaker configuration: a recent request volume, a failure ratio and a
/// delay before the half-open probe.
#[derive(Debug, Clone, Copy)]
pub struct CircuitBreakerConfig {
    request_volume_threshold: usize,
    failure_ratio: FailureRatio,
    delay: Duration,
}

impl View for CircuitBreakerConfig {
    type V = ConfigView;

    closed spec fn view(&self) -> ConfigView {
        ConfigView {
            request_volume_threshold: self.request_volume_threshold as nat,
            failure_ratio: self.failure_ratio@,
            delay: self.delay@,
        }
    }
}

/// The configuration that a circuit breaker starts from: half of twenty calls
/// failed, and five seconds of delay.
pub open spec fn default_config() -> ConfigView {
    ConfigView {
        request_volume_threshold: 20,
        failure_ratio: HALF_BITS,
        delay: (5 * NANOS_PER_SEC) as nat,
    }
}

impl Default for CircuitBreakerConfig {
    fn default() -> (config: Self)
        ensures
            config@ == default_config(),
    {
        CircuitBreakerConfig {
            request_volume_threshold: 20,
            failure_ratio: FailureRatio::from_bits(HALF_BITS),
            delay: Duration::from_secs(5),
        }
    }
}

impl PartialEq for CircuitBreakerConfig {
    /// Whether two configurations have the same settings.
    fn eq(&self, other: &Self) -> (same: bool) {
        self.request_volume_threshold == other.request_volume_threshold && self.failure_ratio
            == other.failure_ratio && self.delay.as_nanos() == other.delay.as_nanos()
    }
}

impl vstd::std_specs::cmp::PartialEqSpecImpl for CircuitBreakerConfig {
    open spec fn obeys_eq_spec() -> bool {
        true
    }

    open spec fn eq_spec(&self, other: &Self) -> bool {
        &&& self@.request_volume_threshold == other@.request_volume_threshold
        &&& same_number(self@.failure_ratio, other@.failure_ratio)
        &&& self@.delay == other@.delay
    }
}

impl CircuitBreakerConfig {
    #[verifier::type_invariant]
    spec fn considers_some_calls(self) -> bool {
        self.request_volume_threshold >= 1
    }

    /// Creates a circuit breaker configuration with defaults.
    pub fn new() -> (config: Self)
        ensures
            config@ == default_config(),
    {
        CircuitBreakerConfig::default()
    }

    /// Sets how many recent calls are considered before the circuit can open.
    ///
    /// A value of zero is treated as one.
    pub fn request_volume_threshold(self, threshold: usize) -> (config: Self)
        ensures
            config@ == (ConfigView {
                request_volume_threshold: if threshold == 0 {
                    1
                } else {
                    threshold as nat
                },
                ..self@
            }),
    {
        let threshold: usize = if threshold == 0 {
            1
        } else {
            threshold
        };
        CircuitBreakerConfig { request_volume_threshold: threshold, ..self }
    }

    /// Sets the failure ratio required to open the circuit, a number from 0 to 1.
    pub fn failure_ratio(self, ratio: FailureRatio) -> (config: Self)
        ensures
            config@ == (ConfigView { failure_ratio: ratio@, ..self@ }),
    {
        proof {
            use_type_invariant(&self);
        }
        CircuitBreakerConfig { failure_ratio: ratio, ..self }
    }

    /// Sets how long the circuit stays open before allowing a probe call.
    pub fn delay(self, delay: Duration) -> (config: Self)
        ensures
            config@ == (ConfigView { delay: delay@, ..self@ }),
    {
        proof {
            use_type_invariant(&self);
        }
        CircuitBreakerConfig { delay, ..self }
    }
}

/// Public circuit breaker state.
#[derive(Debug, Clone, Copy, PartialEq, Eq)]
pub enum CircuitBreakerState {
    /// Calls are allowed and recent failures are being tracked.
    Closed,
    /// Calls are rejected until the configured delay has elapsed.
    Open,
    /// One probe call is allowed to decide whether the circuit should close.
    HalfOpen,
}

/// Leave to make a call, to be handed back with the outcome of the call.
#[derive(Debug, Clone, Copy, PartialEq, Eq)]
pub enum CircuitPermit {
    /// The circuit was closed.
    Closed,
    /// The call is the probe of a half-open circuit.
    HalfOpenProbe,
}

/// What a circuit breaker remembers.
pub enum CircuitView {
    /// Calls are allowed. The outcomes of recent calls, oldest first: whether
    /// each was a success.
    Closed { outcomes: Seq<bool> },
    /// Calls are rejected. When the circuit opened.
    Open { opened_at: nat },
    /// A probe decides. Whether it is on its way.
    HalfOpen { probe_running: bool },
}

/// What a [`CircuitBreaker`] holds.
pub struct BreakerView {
    /// The configuration.
    pub config: ConfigView,
    /// The state.
    pub circuit: CircuitView,
}

/// The last outcomes, up to `limit` of them.
pub open spec fn recent(outcomes: Seq<bool>, limit: nat) -> Seq<bool> {
    if outcomes.len() <= limit {
        outcomes
    } else {
        outcomes.skip(outcomes.len() - limit)
    }
}

/// The number of failures among outcomes.
pub open spec fn failures(outcomes: Seq<bool>) -> nat
    decreases outcomes.len(),
{
    if outcomes.len() == 0 {
        0
    } else {
        failures(outcomes.drop_last()) + if outcomes.last() {
            0nat
        } else {
            1nat
        }
    }
}

/// Whether outcomes open the circuit: the request volume is reached, and the
/// ratio of failures in it.
pub open spec fn trips(config: ConfigView, outcomes: Seq<bool>) -> bool {
    &&& outcomes.len() == config.request_volume_threshold
    &&& quotient_reaches(
        config.failure_ratio,
        failures(outcomes),
        config.request_volume_threshold,
    )
}

/// The circuit after one more outcome of an ordinary call.
pub open spec fn recorded(
    config: ConfigView,
    outcomes: Seq<bool>,
    success: bool,
    now: nat,
) -> CircuitView {
    let window = recent(outcomes.push(success), config.request_volume_threshold);
    if trips(config, window) {
        CircuitView::Open { opened_at: now }
    } else {
        CircuitView::Closed { outcomes: window }
    }
}

impl BreakerView {
    /// What holds of every breaker: some calls are considered, no more are
    /// remembered, and a closed circuit remembers none that would have opened it.
    pub open spec fn well_formed(self) -> bool {
        &&& self.config.request_volume_threshold >= 1
        &&& self.circuit matches CircuitView::Closed { outcomes } ==> {
            &&& outcomes.len() <= self.config.request_volume_threshold
            &&& !trips(self.config, outcomes)
        }
    }

    /// Whether an open circuit has been open for the configured delay.
    pub open spec fn delay_is_over(self, now: nat) -> bool {
        self.circuit matches CircuitView::Open { opened_at } && time_between(opened_at, now)
            >= self.config.delay
    }

    /// The leave that a call gets at the time `now`.
    pub open spec fn admission(self, now: nat) -> Result<CircuitPermit, Error<()>> {
        match self.circuit {
            CircuitView::Closed { .. } => Ok(CircuitPermit::Closed),
            CircuitView::Open { .. } => if self.delay_is_over(now) {
                Ok(CircuitPermit::HalfOpenProbe)
            } else {
                Err(Error::CircuitOpen)
            },
            CircuitView::HalfOpen { probe_running } => if probe_running {
                Err(Error::CircuitOpen)
            } else {
                Ok(CircuitPermit::HalfOpenProbe)
            },
        }
    }

    /// The breaker after a call asked for leave at the time `now`.
    pub open spec fn entered(self, now: nat) -> BreakerView {
        match self.admission(now) {
            Ok(CircuitPermit::HalfOpenProbe) => BreakerView {
                circuit: CircuitView::HalfOpen { probe_running: true },
                ..self
            },
            _ => self,
        }
    }

    /// The breaker after a call handed its leave back at the time `now`.
    pub open spec fn left(self, success: bool, permit: CircuitPermit, now: nat) -> BreakerView {
        let circuit = match permit {
            CircuitPermit::Closed => match self.circuit {
                CircuitView::Closed { outcomes } => recorded(self.config, outcomes, success, now),
                other => other,
            },
            CircuitPermit::HalfOpenProbe => if success {
                CircuitView::Closed { outcomes: Seq::empty() }
            } else {
                CircuitView::Open { opened_at: now }
            },
        };
        BreakerView { circuit, ..self }
    }
}

#[derive(Debug)]
enum CircuitState {
    Closed { outcomes: VecDeque<bool> },
    Open { opened_at: Instant },
    HalfOpen { probe_running: bool },
}

impl CircuitState {
    spec fn view(&self) -> CircuitView {
        match self {
            CircuitState::Closed { outcomes } => CircuitView::Closed { outcomes: outcomes@ },
            CircuitState::Open { opened_at } => CircuitView::Open { opened_at: opened_at@ },
            CircuitState::HalfOpen { probe_running } => CircuitView::HalfOpen {
                probe_running: *probe_running,
            },
        }
    }
}

/// Circuit breaker state for failing fast while a dependency recovers.
///
/// Calls that are to share one breaker put it behind one lock. A call asks for
/// leave with [`CircuitBreaker::before_call`] and hands the leave back, with the
/// outcome, through [`CircuitBreaker::after_call`].
#[derive(Debug)]
pub struct CircuitBreaker {
    config: CircuitBreakerConfig,
    state: CircuitState,
}

impl View for CircuitBreaker {
    type V = BreakerView;

    closed spec fn view(&self) -> BreakerView {
        BreakerView { config: self.config@, circuit: self.state.view() }
    }
}

impl Default for CircuitBreaker {
    fn default() -> (breaker: Self)
        ensures
            breaker@.config == default_config(),
            breaker@.circuit == (CircuitView::Closed { outcomes: Seq::empty() }),
    {
        CircuitBreaker::new(CircuitBreakerConfig::default())
    }
}

impl CircuitBreaker {
    #[verifier::type_invariant]
    spec fn is_well_formed(self) -> bool {
        self@.well_formed()
    }

    /// Creates a closed circuit breaker with the supplied configuration.
    pub fn new(config: CircuitBreakerConfig) -> (breaker: Self)
        ensures
            breaker@.config == config@,
            breaker@.circuit == (CircuitView::Closed { outcomes: Seq::empty() }),
            breaker@.well_formed(),
    {
        proof {
            use_type_invariant(&config);
        }
        CircuitBreaker { config, state: CircuitState::Closed { outcomes: VecDeque::new() } }
    }

    /// Returns the current circuit breaker state.
    ///
    /// This is useful for health endpoints, metrics and tests. Normal request
    /// flow does not need to inspect the state before calling a policy.
    pub fn state(&self) -> (state: CircuitBreakerState)
        ensures
            match self@.circuit {
                CircuitView::Closed { .. } => state == CircuitBreakerState::Closed,
                CircuitView::Open { .. } => state == CircuitBreakerState::Open,
                CircuitView::HalfOpen { .. } => state == CircuitBreakerState::HalfOpen,
            },
            self@.well_formed(),
    {
        proof {
            use_type_invariant(self);
        }
        match &self.state {
            CircuitState::Closed { .. } => CircuitBreakerState::Closed,
            CircuitState::Open { .. } => CircuitBreakerState::Open,
            CircuitState::HalfOpen { .. } => CircuitBreakerState::HalfOpen,
        }
    }

    /// Asks for leave to make a call at the time `now`.
    pub fn before_call(&mut self, now: Instant) -> (admission: Result<CircuitPermit, Error<()>>)
        ensures
            admission == old(self)@.admission(now@),
            final(self)@ == old(self)@.entered(now@),
            final(self)@.well_formed(),
    {
        proof {
            use_type_invariant(&*self);
            law_well_formed_is_kept(self@, now@, true, CircuitPermit::Closed);
        }
        match &self.state {
            CircuitState::Closed { .. } => Ok(CircuitPermit::Closed),
            CircuitState::Open { opened_at } => {
                if opened_at.elapsed(now).as_nanos() >= self.config.delay.as_nanos() {
                    self.state = CircuitState::HalfOpen { probe_running: true };
                    Ok(CircuitPermit::HalfOpenProbe)
                } else {
                    Err(Error::CircuitOpen)
                }
            },
            CircuitState::HalfOpen { probe_running } => {
                if *probe_running {
                    Err(Error::CircuitOpen)
                } else {
                    self.state = CircuitState::HalfOpen { probe_running: true };
                    Ok(CircuitPermit::HalfOpenProbe)
                }
            },
        }
    }

    /// Hands the leave of a call back at the time `now`, with the outcome.
    pub fn after_call(&mut self, success: bool, permit: CircuitPermit, now: Instant)
        ensures
            final(self)@ == old(self)@.left(success, permit, now@),
            final(self)@.well_formed(),
    {
        proof {
            use_type_invariant(&*self);
            law_well_formed_is_kept(self@, now@, success, permit);
        }
        match permit {
            CircuitPermit::Closed => {
                let mut state = CircuitState::Open { opened_at: now };
                std::mem::swap(&mut self.state, &mut state);
                self.state = match state {
                    CircuitState::Closed { outcomes } => {
                        record(&self.config, outcomes, success, now)
                    },
                    other => other,
                };
            },
            CircuitPermit::HalfOpenProbe => {
                if success {
                    self.state = CircuitState::Closed { outcomes: VecDeque::new() };
                } else {
                    self.state = CircuitState::Open { opened_at: now };
                }
            },
        }
    }
}

/// The circuit after one more outcome of an ordinary call.
fn record(
    config: &CircuitBreakerConfig,
    outcomes: VecDeque<bool>,
    success: bool,
    now: Instant,
) -> (state: CircuitState)
    requires
        outcomes@.len() <= config@.request_volume_threshold,
    ensures
        state.view() == recorded(config@, outcomes@, success, now@),
{
    proof {
        use_type_invariant(config);
    }
    let ghost all = outcomes@.push(success);
    let threshold = config.request_volume_threshold;
    let mut outcomes = outcomes;
    outcomes.push_back(success);
    while outcomes.len() > threshold
        invariant
            threshold >= 1,
            outcomes@.len() >= recent(all, threshold as nat).len(),
            outcomes@.len() <= all.len(),
            outcomes@ == all.skip(all.len() - outcomes@.len()),
        decreases outcomes@.len(),
    {
        let _ = outcomes.pop_front();
    }
    assert(outcomes@ == recent(all, threshold as nat));
    if outcomes.len() == threshold {
        let failures = count_failures(&outcomes);
        if config.failure_ratio.reached(failures, threshold) {
            return CircuitState::Open { opened_at: now };
        }
    }
    CircuitState::Closed { outcomes }
}

/// Counts the failures among outcomes.
fn count_failures(outcomes: &VecDeque<bool>) -> (count: usize)
    ensures
        count == failures(outcomes@),
{
    let mut count: usize = 0;
    let mut next: usize = 0;
    while next < outcomes.len()
        invariant
            next <= outcomes@.len(),
            count <= next,
            count == failures(outcomes@.take(next as int)),
        decreases outcomes@.len() - next,
    {
        assert(outcomes@.take(next + 1).drop_last() == outcomes@.take(next as int));
        if !outcomes[next] {
            count = count + 1;
        }
        next = next + 1;
    }
    assert(outcomes@.take(next as int) == outcomes@);
    count
}

/// No call breaks what holds of every breaker, nor changes the configuration.
pub proof fn law_well_formed_is_kept(
    breaker: BreakerView,
    now: nat,
    success: bool,
    permit: CircuitPermit,
)
    requires
        breaker.well_formed(),
    ensures
        breaker.entered(now).well_formed(),
        breaker.entered(now).config == breaker.config,
        breaker.left(success, permit, now).well_formed(),
        breaker.left(success, permit, now).config == breaker.config,
{
}

/// While the circuit is open and the delay is not over, calls are rejected and
/// nothing changes.
pub proof fn law_open_circuit_rejects(breaker: BreakerView, now: nat)
    requires
        breaker.circuit is Open,
        !breaker.delay_is_over(now),
    ensures
        breaker.admission(now) == Err::<CircuitPermit, Error<()>>(Error::CircuitOpen),
        breaker.entered(now) == breaker,
{
}

/// After the delay one call gets through as the probe, and until it is back
/// every other call is rejected, at whatever time it comes.
pub proof fn law_one_probe_after_the_delay(breaker: BreakerView, now: nat, later: nat)
    requires
        breaker.circuit is Open,
        breaker.delay_is_over(now),
    ensures
        breaker.admission(now) == Ok::<CircuitPermit, Error<()>>(CircuitPermit::HalfOpenProbe),
        breaker.entered(now).circuit == (CircuitView::HalfOpen { probe_running: true }),
        breaker.entered(now).admission(later) == Err::<CircuitPermit, Error<()>>(
            Error::CircuitOpen,
        ),
        breaker.entered(now).entered(later) == breaker.entered(now),
{
}

/// A successful probe closes the circuit and clears the recent outcomes; a
/// failed probe opens it again, for the whole delay from then on.
pub proof fn law_probe_decides(breaker: BreakerView, now: nat, later: nat)
    requires
        time_between(now, later) < breaker.config.delay,
    ensures
        breaker.left(true, CircuitPermit::HalfOpenProbe, now).circuit == (CircuitView::Closed {
            outcomes: Seq::empty(),
        }),
        breaker.left(false, CircuitPermit::HalfOpenProbe, now).circuit == (CircuitView::Open {
            opened_at: now,
        }),
        breaker.left(false, CircuitPermit::HalfOpenProbe, now).admission(later) == Err::<
            CircuitPermit,
            Error<()>,
        >(Error::CircuitOpen),
{
}

/// The outcome of an ordinary call that ends after the circuit opened is not
/// recorded.
pub proof fn law_late_outcome_is_ignored(breaker: BreakerView, success: bool, now: nat)
    requires
        !(breaker.circuit is Closed),
    ensures
        breaker.left(success, CircuitPermit::Closed, now) == breaker,
{
}

/// The breaker after ordinary calls with the given outcomes, each at its time.
pub open spec fn after_outcomes(
    breaker: BreakerView,
    outcomes: Seq<bool>,
    times: Seq<nat>,
) -> BreakerView
    recommends
        outcomes.len() == times.len(),
    decreases outcomes.len(),
{
    if outcomes.len() == 0 {
        breaker
    } else {
        after_outcomes(breaker, outcomes.drop_last(), times.drop_last()).left(
            outcomes.last(),
            CircuitPermit::Closed,
            times.last(),
        )
    }
}

/// A new breaker.
pub open spec fn fresh(config: ConfigView) -> BreakerView {
    BreakerView { config, circuit: CircuitView::Closed { outcomes: Seq::empty() } }
}

/// The calls that are still remembered are the last ones.
proof fn lemma_recent_push(outcomes: Seq<bool>, success: bool, limit: nat)
    requires
        limit >= 1,
    ensures
        recent(recent(outcomes, limit).push(success), limit) == recent(
            outcomes.push(success),
            limit,
        ),
{
}

/// As long as no recent calls open the circuit, it stays closed and remembers
/// the last calls, as many as the request volume.
pub proof fn law_closed_circuit_remembers_recent_calls(
    config: ConfigView,
    outcomes: Seq<bool>,
    times: Seq<nat>,
)
    requires
        config.request_volume_threshold >= 1,
        times.len() == outcomes.len(),
        forall|count: int|
            0 <= count <= outcomes.len() ==> !trips(
                config,
                recent(#[trigger] outcomes.take(count), config.request_volume_threshold),
            ),
    ensures
        after_outcomes(fresh(config), outcomes, times).config == config,
        after_outcomes(fresh(config), outcomes, times).circuit == (CircuitView::Closed {
            outcomes: recent(outcomes, config.request_volume_threshold),
        }),
    decreases outcomes.len(),
{
    if outcomes.len() > 0 {
        let before = outcomes.drop_last();
        assert forall|count: int| 0 <= count <= before.len() implies !trips(
            config,
            recent(#[trigger] before.take(count), config.request_volume_threshold),
        ) by {
            assert(before.take(count) == outcomes.take(count));
        }
        law_closed_circuit_remembers_recent_calls(config, before, times.drop_last());
        assert(before.push(outcomes.last()) == outcomes);
        assert(outcomes.take(outcomes.len() as int) == outcomes);
        lemma_recent_push(before, outcomes.last(), config.request_volume_threshold);
    } else {
        assert(outcomes =~= Seq::empty());
    }
}

/// The circuit opens with the first call that completes a request volume in
/// which the failure ratio is reached, and not before.
pub proof fn law_circuit_opens_at_the_ratio(
    config: ConfigView,
    outcomes: Seq<bool>,
    times: Seq<nat>,
)
    requires
        config.request_volume_threshold >= 1,
        times.len() == outcomes.len(),
        outcomes.len() > 0,
        forall|count: int|
            0 <= count < outcomes.len() ==> !trips(
                config,
                recent(#[trigger] outcomes.take(count), config.request_volume_threshold),
            ),
    ensures
        after_outcomes(fresh(config), outcomes, times).circuit == if trips(
            config,
            recent(outcomes, config.request_volume_threshold),
        ) {
            CircuitView::Open { opened_at: times.last() }
        } else {
            CircuitView::Closed { outcomes: recent(outcomes, config.request_volume_threshold) }
        },
{
    let before = outcomes.drop_last();
    assert forall|count: int| 0 <= count <= before.len() implies !trips(
        config,
        recent(#[trigger] before.take(count), config.request_volume_threshold),
    ) by {
        assert(before.take(count) == outcomes.take(count));
    }
    law_closed_circuit_remembers_recent_calls(config, before, times.drop_last());
    assert(before.push(outcomes.last()) == outcomes);
    lemma_recent_push(before, outcomes.last(), config.request_volume_threshold);
}

/// Fewer calls than the request volume never open the circuit.
pub proof fn law_circuit_stays_closed_below_the_volume(
    config: ConfigView,
    outcomes: Seq<bool>,
    times: Seq<nat>,
)
    requires
        outcomes.len() < config.request_volume_threshold,
        times.len() == outcomes.len(),
    ensures
        after_outcomes(fresh(config), outcomes, times).circuit == (CircuitView::Closed {
            outcomes,
        }),
{
    law_closed_circuit_remembers_recent_calls(config, outcomes, times);
}

/// A breaker together with the probes that got through and are not back.
pub struct Traffic {
    /// The breaker.
    pub breaker: BreakerView,
    /// The number of probes on their way.
    pub probes: nat,
}

/// One event at a breaker.
pub enum TrafficEvent {
    /// A call asks for leave.
    Enter { now: nat },
    /// A call hands its leave back.
    Leave { success: bool, permit: CircuitPermit, now: nat },
}

impl Traffic {
    /// Whether an event can come: a probe hands its leave back only once.
    pub open spec fn allows(self, event: TrafficEvent) -> bool {
        event matches TrafficEvent::Leave { permit: CircuitPermit::HalfOpenProbe, .. }
            ==> self.probes >= 1
    }

    /// The traffic after an event.
    pub open spec fn after(self, event: TrafficEvent) -> Traffic {
        match event {
            TrafficEvent::Enter { now } => Traffic {
                breaker: self.breaker.entered(now),
                probes: if self.breaker.admission(now) == Ok::<CircuitPermit, Error<()>>(
                    CircuitPermit::HalfOpenProbe,
                ) {
                    self.probes + 1
                } else {
                    self.probes
                },
            },
            TrafficEvent::Leave { success, permit, now } => Traffic {
                breaker: self.breaker.left(success, permit, now),
                probes: if permit == CircuitPermit::HalfOpenProbe {
                    (self.probes - 1) as nat
                } else {
                    self.probes
                },
            },
        }
    }

    /// The traffic after a sequence of events.
    pub open spec fn after_all(self, events: Seq<TrafficEvent>) -> Traffic
        decreases events.len(),
    {
        if events.len() == 0 {
            self
        } else {
            self.after_all(events.drop_last()).after(events.last())
        }
    }

    /// Whether a sequence of events can come.
    pub open spec fn allows_all(self, events: Seq<TrafficEvent>) -> bool
        decreases events.len(),
    {
        events.len() > 0 ==> {
            &&& self.allows_all(events.drop_last())
            &&& self.after_all(events.drop_last()).allows(events.last())
        }
    }
}

/// An open circuit reports that it is open until a call is admitted as a probe,
/// also once its delay has passed: asks that are rejected and outcomes that come
/// late change nothing.
pub proof fn law_open_until_a_probe_is_admitted(
    breaker: BreakerView,
    events: Seq<TrafficEvent>,
)
    requires
        breaker.circuit is Open,
        (Traffic { breaker, probes: 0 }).allows_all(events),
        forall|i: int, now: nat|
            0 <= i < events.len() && #[trigger] events[i] == (TrafficEvent::Enter { now })
                ==> !#[trigger] breaker.delay_is_over(now),
    ensures
        (Traffic { breaker, probes: 0 }).after_all(events) == (Traffic { breaker, probes: 0 }),
    decreases events.len(),
{
    if events.len() > 0 {
        let earlier = events.drop_last();
        assert forall|i: int, now: nat|
            0 <= i < earlier.len() && #[trigger] earlier[i] == (TrafficEvent::Enter { now })
                implies !#[trigger] breaker.delay_is_over(now) by {
            assert(events[i] == earlier[i]);
        }
        law_open_until_a_probe_is_admitted(breaker, earlier);
        assert(events[events.len() - 1] == events.last());
        if let TrafficEvent::Enter { now } = events.last() {
            assert(!breaker.delay_is_over(now));
        }
    }
}

/// A circuit breaker behind a counted reference, through which calls share it. `L`
/// is what guards the breaker, such as a lock around it.
#[derive(Debug)]
pub struct SharedBreaker<L> {
    guard: Arc<L>,
}

impl<L> View for SharedBreaker<L> {
    type V = L;

    closed spec fn view(&self) -> L {
        *self.guard
    }
}

impl<L> SharedBreaker<L> {
    /// Shares what guards a circuit breaker.
    pub fn new(guard: L) -> (shared: Self)
        ensures
            shared@ == guard,
    {
        SharedBreaker { guard: Arc::new(guard) }
    }

    /// What guards the circuit breaker.
    pub fn guard(&self) -> (guard: &L)
        ensures
            *guard == self@,
    {
        &self.guard
    }
}

impl<L> Clone for SharedBreaker<L> {
    /// The same reference once more: both lead to one circuit breaker.
    fn clone(&self) -> (shared: Self)
        ensures
            shared == *self,
    {
        SharedBreaker { guard: Arc::clone(&self.guard) }
    }
}

/// The breakers behind all references after events that each came through one of
/// them.
pub open spec fn breakers_after<L>(
    breakers: spec_fn(SharedBreaker<L>) -> BreakerView,
    events: Seq<(SharedBreaker<L>, TrafficEvent)>,
) -> spec_fn(SharedBreaker<L>) -> BreakerView
    decreases events.len(),
{
    if events.len() == 0 {
        breakers
    } else {
        let before = breakers_after(breakers, events.drop_last());
        let (through, event) = events.last();
        |shared: SharedBreaker<L>|
            if shared == through {
                (Traffic { breaker: before(shared), probes: 0 }).after(event).breaker
            } else {
                before(shared)
            }
    }
}

/// Clones of a reference share one circuit breaker: after any calls through either
/// of the two, in whatever order, both show the breaker that all of these calls
/// went through, and so the same state.
pub proof fn law_clones_share_one_breaker<L>(
    shared: SharedBreaker<L>,
    copy: SharedBreaker<L>,
    breakers: spec_fn(SharedBreaker<L>) -> BreakerView,
    events: Seq<(SharedBreaker<L>, TrafficEvent)>,
)
    requires
        cloned(shared, copy),
        forall|i: int|
            0 <= i < events.len() ==> (#[trigger] events[i]).0 == shared || events[i].0 == copy,
    ensures
        breakers_after(breakers, events)(copy) == breakers_after(breakers, events)(shared),
        breakers_after(breakers, events)(shared) == breaker_after(
            breakers(shared),
            events.map_values(|event: (SharedBreaker<L>, TrafficEvent)| event.1),
        ),
    decreases events.len(),
{
    assert(copy == shared);
    let project = |event: (SharedBreaker<L>, TrafficEvent)| event.1;
    if events.len() > 0 {
        let earlier = events.drop_last();
        assert(forall|i: int| 0 <= i < earlier.len() ==> earlier[i] == #[trigger] events[i]);
        law_clones_share_one_breaker(shared, copy, breakers, earlier);
        assert(events[events.len() - 1].0 == shared);
        assert(events.map_values(project).drop_last() =~= earlier.map_values(project));
        assert(events.map_values(project).last() == events.last().1);
    }
}

/// A breaker after a sequence of events.
pub open spec fn breaker_after(breaker: BreakerView, events: Seq<TrafficEvent>) -> BreakerView
    decreases events.len(),
{
    if events.len() == 0 {
        breaker
    } else {
        let before = breaker_after(breaker, events.drop_last());
        match events.last() {
            TrafficEvent::Enter { now } => before.entered(now),
            TrafficEvent::Leave { success, permit, now } => before.left(success, permit, now),
        }
    }
}

/// Whatever calls come and go, at most one probe is on its way, and one is
/// exactly while the circuit is half-open.
pub proof fn law_at_most_one_probe(config: ConfigView, events: Seq<TrafficEvent>)
    requires
        (Traffic { breaker: fresh(config), probes: 0 }).allows_all(events),
    ensures
        ({
            let traffic = (Traffic { breaker: fresh(config), probes: 0 }).after_all(events);
            &&& traffic.probes <= 1
            &&& traffic.probes == 1 <==> traffic.breaker.circuit is HalfOpen
            &&& traffic.breaker.circuit is HalfOpen ==> traffic.breaker.circuit == (
            CircuitView::HalfOpen { probe_running: true })
        }),
    decreases events.len(),
{
    if events.len() > 0 {
        law_at_most_one_probe(config, events.drop_last());
    }
}

} // verus!
