use axum_fault_tolerance::attribute::{Argument, Arguments, Attribute, Value};
use axum_fault_tolerance::call::{
    attempt_result, classified_fallback_step, fallback_result, fallback_step, FallbackStep,
};
use axum_fault_tolerance::expansion::{
    expand_fault_tolerant, ImplBlock, Item, Method, MethodPlan, PlannedItem,
};
use axum_fault_tolerance::method::{
    FirstInput, GenericArgument, Output, PathArguments, PathSegment, Pattern, Signature,
};
use axum_fault_tolerance::setup::SharedParts;
use axum_fault_tolerance::{
    Bulkhead, CircuitBreaker, CircuitBreakerConfig, CircuitBreakerState, CircuitPermit, Duration,
    Error, FailureClassifier, FailureRatio, FaultTolerance, Instant, RetryPolicy, SharedBreaker,
    Step,
};
use std::sync::Mutex;

type Breaker = SharedBreaker<Mutex<CircuitBreaker>>;

type Policy = FaultTolerance<Breaker>;

/// A clock that the test moves.
struct Clock {
    millis: u64,
}

impl Clock {
    fn now(&self) -> Instant {
        Instant::at(Duration::from_millis(self.millis))
    }
}

/// What an operation does: it takes some time, and ends with a result.
struct Outcome<T, E> {
    takes_ms: u64,
    result: Result<T, E>,
}

fn at_once<T, E>(result: Result<T, E>) -> Outcome<T, E> {
    Outcome { takes_ms: 0, result }
}

/// Runs a call to its end against a clock.
fn drive<T, E>(
    policy: &Policy,
    classifier: &FailureClassifier<E>,
    clock: &mut Clock,
    mut operation: impl FnMut() -> Outcome<T, E>,
) -> Result<T, Error<E>> {
    let mut step = policy.start_call(clock.now());
    loop {
        step = match step {
            Step::EnterCircuit(entering) => {
                let breaker = policy.circuit_breaker().unwrap();
                let admission = breaker.guard().lock().unwrap().before_call(clock.now());
                entering.replied(admission, classifier, clock.now())
            }
            Step::EnterBulkhead(entering) => {
                let acquired = policy.bulkhead().unwrap().try_acquire();
                entering.replied(acquired, classifier, clock.now())
            }
            Step::Run(running) => {
                let outcome = operation();
                let takes = Duration::from_millis(outcome.takes_ms);
                let ended = match running.timeout() {
                    Some(limit) if limit < takes => {
                        clock.millis += (limit.as_nanos() / 1_000_000) as u64;
                        None
                    }
                    _ => {
                        clock.millis += outcome.takes_ms;
                        Some(outcome.result)
                    }
                };
                running.finished(ended, classifier, clock.now())
            }
            Step::Report(reporting) => {
                let (success, leave) = reporting.report();
                let breaker = policy.circuit_breaker().unwrap();
                breaker.guard().lock().unwrap().after_call(success, leave, clock.now());
                reporting.reported(classifier, clock.now())
            }
            Step::Backoff(backing_off) => {
                if let Some(delay) = backing_off.delay() {
                    clock.millis += (delay.as_nanos() / 1_000_000) as u64;
                }
                backing_off.waited(clock.now())
            }
            Step::Done(result) => return result,
        };
    }
}

fn call<T, E>(policy: &Policy, operation: impl FnMut() -> Outcome<T, E>) -> Result<T, Error<E>> {
    drive(policy, &FailureClassifier::new(), &mut Clock { millis: 0 }, operation)
}

fn ratio(value: f64) -> FailureRatio {
    FailureRatio::from_bits(value.to_bits())
}

fn shared(config: CircuitBreakerConfig) -> Breaker {
    SharedBreaker::new(Mutex::new(CircuitBreaker::new(config)))
}

fn state(breaker: &Breaker) -> CircuitBreakerState {
    breaker.guard().lock().unwrap().state()
}

#[test]
fn retries_until_operation_succeeds() {
    let mut attempts = 0;
    let policy = FaultTolerance::builder().retry(RetryPolicy::new().max_retries(3)).build();

    let result = call(&policy, || {
        let attempt = attempts;
        attempts += 1;
        at_once(if attempt < 2 { Err("not yet") } else { Ok("ok") })
    });

    assert_eq!(result, Ok("ok"));
    assert_eq!(attempts, 3);
}

#[test]
fn classifier_can_abort_retries_for_operation_errors() {
    #[derive(Debug, PartialEq, Eq)]
    enum ClientError {
        Permanent,
    }

    let mut attempts = 0;
    let policy: Policy =
        FaultTolerance::builder().retry(RetryPolicy::new().max_retries(3)).build();
    let classifier =
        FailureClassifier::new().abort_on_operation(|error| *error == ClientError::Permanent);

    let result = drive(&policy, &classifier, &mut Clock { millis: 0 }, || {
        attempts += 1;
        at_once(Err::<(), _>(ClientError::Permanent))
    });

    assert_eq!(result, Err(Error::Operation(ClientError::Permanent)));
    assert_eq!(attempts, 1);
}

#[test]
fn classifier_can_skip_fallback() {
    let policy = Policy::default();
    let classifier = FailureClassifier::<&'static str>::new().skip_fallback_on_error(
        |error| matches!(error, Error::Operation(error) if *error == "do-not-fallback"),
    );

    let called = drive(&policy, &classifier, &mut Clock { millis: 0 }, || {
        at_once(Err::<(), &'static str>("do-not-fallback"))
    });
    let result = match classified_fallback_step(&classifier, called) {
        FallbackStep::Succeeded(value) => Ok(value),
        FallbackStep::Fallback(_error) => fallback_result(Ok(())),
        FallbackStep::Failed(error) => Err(error),
    };

    assert_eq!(result, Err(Error::Operation("do-not-fallback")));
}

#[test]
fn classifier_can_skip_circuit_failures() {
    let circuit = shared(
        CircuitBreakerConfig::new()
            .request_volume_threshold(1)
            .failure_ratio(ratio(1.0))
            .delay(Duration::from_secs(60)),
    );
    let policy = FaultTolerance::builder().circuit_breaker(circuit.clone()).build();
    let classifier = FailureClassifier::<&'static str>::new().circuit_skip_on_error(
        |error| matches!(error, Error::Operation(error) if *error == "ignored"),
    );

    let result = drive(&policy, &classifier, &mut Clock { millis: 0 }, || {
        at_once(Err::<(), &'static str>("ignored"))
    });

    assert_eq!(result, Err(Error::Operation("ignored")));
    assert_eq!(state(&circuit), CircuitBreakerState::Closed);
}

#[test]
fn timeout_fails_slow_operation() {
    let policy = FaultTolerance::builder().timeout(Duration::from_millis(5)).build();

    let result =
        call(&policy, || Outcome { takes_ms: 1000, result: Ok::<_, &'static str>("late") });

    assert_eq!(result, Err(Error::Timeout));
}

#[test]
fn fallback_receives_policy_error() {
    let policy = FaultTolerance::builder().timeout(Duration::from_millis(5)).build();

    let called =
        call(&policy, || Outcome { takes_ms: 1000, result: Ok::<_, &'static str>("late") });
    let result: Result<&'static str, &'static str> = match fallback_step(called) {
        FallbackStep::Succeeded(value) => Ok(value),
        FallbackStep::Fallback(error) => {
            assert_eq!(error, Error::Timeout);
            Ok("fallback")
        }
        FallbackStep::Failed(_) => panic!("the fallback takes every failure"),
    };

    assert_eq!(result, Ok("fallback"));
}

#[test]
fn circuit_breaker_opens_after_failure_threshold() {
    let circuit = shared(
        CircuitBreakerConfig::new()
            .request_volume_threshold(2)
            .failure_ratio(ratio(0.5))
            .delay(Duration::from_secs(60)),
    );
    let policy = FaultTolerance::builder().circuit_breaker(circuit.clone()).build();

    let first = call(&policy, || at_once(Err::<(), _>("failed")));
    let second = call(&policy, || at_once(Ok::<_, &'static str>(())));
    let third = call(&policy, || at_once(Ok::<_, &'static str>(())));

    assert_eq!(first, Err(Error::Operation("failed")));
    assert_eq!(second, Ok(()));
    assert_eq!(state(&circuit), CircuitBreakerState::Open);
    assert_eq!(third, Err(Error::CircuitOpen));
}

#[test]
fn circuit_breaker_allows_probe_after_delay() {
    let circuit = shared(
        CircuitBreakerConfig::new()
            .request_volume_threshold(1)
            .failure_ratio(ratio(1.0))
            .delay(Duration::from_millis(1)),
    );
    let policy = FaultTolerance::builder().circuit_breaker(circuit.clone()).build();
    let classifier = FailureClassifier::new();
    let mut clock = Clock { millis: 0 };

    let failed = drive(&policy, &classifier, &mut clock, || at_once(Err::<(), _>("failed")));
    assert_eq!(failed, Err(Error::Operation("failed")));
    assert_eq!(state(&circuit), CircuitBreakerState::Open);

    clock.millis += 2;

    let probe =
        drive(&policy, &classifier, &mut clock, || at_once(Ok::<_, &'static str>(())));

    assert_eq!(probe, Ok(()));
    assert_eq!(state(&circuit), CircuitBreakerState::Closed);
}

#[test]
fn bulkhead_rejects_when_full() {
    let policy: Policy = FaultTolerance::builder().bulkhead(Bulkhead::new(1)).build();
    let first_policy = policy.clone();

    let mut rejected = None;
    let first = call(&first_policy, || {
        rejected = Some(call(&policy, || at_once(Ok::<_, &'static str>(()))));
        at_once(Ok::<_, &'static str>(()))
    });

    assert_eq!(rejected, Some(Err(Error::BulkheadRejected)));
    assert_eq!(first, Ok(()));
    assert_eq!(call(&policy, || at_once(Ok::<_, &'static str>(()))), Ok(()));
}

fn integer_argument(key: &str, digits: &str) -> Argument {
    Argument { key: Some(key.to_owned()), value: Value::Integer(digits.as_bytes().to_vec()) }
}

fn attribute(name: &str, list: Vec<Argument>) -> Attribute {
    Attribute { name: Some(name.to_owned()), arguments: Arguments { list, complete: true } }
}

/// The signature of a method with the given arguments that returns
/// `std::result::Result` of two types.
fn signature(name: &str, arguments: &[&str]) -> Signature {
    let segment = |ident: &str| PathSegment {
        ident: ident.to_owned(),
        arguments: PathArguments::Absent,
    };
    Signature {
        name: name.to_owned(),
        is_async: true,
        has_generics: false,
        first: FirstInput::Receiver { reference: true, mutable: false },
        arguments: arguments
            .iter()
            .map(|name| Pattern::Ident { name: name.to_string(), by_ref: false, mutable: false })
            .collect(),
        output: Output::Path(vec![
            segment("std"),
            segment("result"),
            PathSegment {
                ident: "Result".to_owned(),
                arguments: PathArguments::AngleBracketed(vec![
                    GenericArgument::Type,
                    GenericArgument::Type,
                ]),
            },
        ]),
    }
}

/// The plan of the first item of a block without errors.
fn first_plan(items: Vec<Item>) -> MethodPlan {
    let expansion = expand_fault_tolerant(&ImplBlock { is_trait_impl: false, items });
    assert!(expansion.errors.is_empty());
    match expansion.items.into_iter().next() {
        Some(PlannedItem::Expanded(0, plan, _)) => plan,
        other => panic!("the first item is not expanded: {:?}", other),
    }
}

#[test]
fn macro_wraps_method_with_retry_and_fallback() {
    struct Client {
        attempts: usize,
    }

    impl Client {
        fn user(&mut self, id: u64) -> Result<String, &'static str> {
            let _ = id;
            self.attempts += 1;
            Err("offline")
        }

        fn fallback_user(
            &self,
            id: u64,
            error: Error<&'static str>,
        ) -> Result<String, &'static str> {
            assert_eq!(id, 42);
            assert_eq!(error, Error::Operation("offline"));
            Ok("cached".to_owned())
        }
    }

    let plan = first_plan(vec![
        Item::Method(Method {
            attributes: vec![
                attribute("retry", vec![integer_argument("max_retries", "1")]),
                attribute(
                    "fallback",
                    vec![Argument {
                        key: Some("method".to_owned()),
                        value: Value::Text("fallback_user".to_owned()),
                    }],
                ),
            ],
            signature: signature("user", &["id"]),
        }),
        Item::Method(Method {
            attributes: vec![],
            signature: signature("fallback_user", &["id", "error"]),
        }),
    ]);
    assert_eq!(plan.hidden_name, "__fault_tolerance_user");
    assert_eq!(plan.arguments, vec!["id".to_owned()]);
    assert_eq!(plan.policy.fallback_method, Some("fallback_user".to_owned()));

    let mut parts: SharedParts<Breaker> = SharedParts::new();
    let policy = plan.policy.policy(&mut parts, |breaker| SharedBreaker::new(Mutex::new(breaker)));
    let mut client = Client { attempts: 0 };

    let called = call(&policy, || at_once(client.user(42)));
    let result = match fallback_step(called) {
        FallbackStep::Succeeded(value) => Ok(value),
        FallbackStep::Fallback(error) => client.fallback_user(42, error),
        FallbackStep::Failed(_) => panic!("the fallback takes every failure"),
    };

    assert_eq!(result, Ok("cached".to_owned()));
    assert_eq!(client.attempts, 2);
}

#[test]
fn macro_circuit_breaker_state_is_shared_per_method() {
    let plan = first_plan(vec![Item::Method(Method {
        attributes: vec![attribute(
            "circuit_breaker",
            vec![
                integer_argument("request_volume_threshold", "1"),
                Argument {
                    key: Some("failure_ratio".to_owned()),
                    value: Value::Float(1.0f64.to_bits()),
                },
                integer_argument("delay_ms", "60000"),
            ],
        )],
        signature: signature("fail", &[]),
    })]);
    let mut parts: SharedParts<Breaker> = SharedParts::new();
    let mut fail = || {
        let policy = plan.policy.policy(&mut parts, |breaker| SharedBreaker::new(Mutex::new(breaker)));
        call(&policy, || at_once(Err::<(), &'static str>("failed")))
    };

    let first = fail();
    let second = fail();

    assert_eq!(first, Err(Error::Operation("failed")));
    assert_eq!(second, Err(Error::CircuitOpen));
}

#[test]
fn a_call_without_policies_runs_once() {
    let policy = Policy::default();
    let mut attempts = 0;
    let result = call(&policy, || {
        attempts += 1;
        at_once(Err::<(), _>("failed"))
    });
    assert_eq!(result, Err(Error::Operation("failed")));
    assert_eq!(attempts, 1);
}

#[test]
fn attempts_are_bounded_by_the_retries() {
    for max_retries in 0..5 {
        let policy =
            FaultTolerance::builder().retry(RetryPolicy::new().max_retries(max_retries)).build();
        let mut attempts = 0;
        let result = call(&policy, || {
            attempts += 1;
            at_once(Err::<(), _>(attempts))
        });
        assert_eq!(attempts, max_retries + 1);
        assert_eq!(result, Err(Error::Operation(max_retries + 1)));
    }
}

#[test]
fn the_time_for_all_attempts_ends_the_retries() {
    let policy: Policy = FaultTolerance::builder()
        .retry(
            RetryPolicy::new()
                .max_retries(100)
                .delay(Duration::from_millis(4))
                .max_duration(Duration::from_millis(10)),
        )
        .build();
    let mut clock = Clock { millis: 1_000 };
    let mut attempts = 0;
    let result = drive(&policy, &FailureClassifier::new(), &mut clock, || {
        attempts += 1;
        Outcome { takes_ms: 1, result: Err::<(), _>("failed") }
    });
    assert_eq!(result, Err(Error::Operation("failed")));
    assert_eq!(attempts, 2);
    assert_eq!(clock.millis, 1_010);
}

#[test]
fn no_attempt_starts_once_the_time_ran_out_in_a_wait() {
    let policy: Policy = FaultTolerance::builder()
        .retry(
            RetryPolicy::new()
                .delay(Duration::from_millis(10))
                .max_duration(Duration::from_millis(5)),
        )
        .build();
    let mut attempts = 0;
    let result = call(&policy, || {
        attempts += 1;
        at_once(Err::<(), _>(attempts))
    });
    assert_eq!(result, Err(Error::Operation(1)));
    assert_eq!(attempts, 1);
}

#[test]
fn the_last_error_is_returned_when_the_time_runs_out() {
    let policy: Policy = FaultTolerance::builder()
        .retry(
            RetryPolicy::new()
                .max_retries(9)
                .delay(Duration::from_millis(4))
                .max_duration(Duration::from_millis(9)),
        )
        .build();
    let mut attempts = 0;
    let result = call(&policy, || {
        attempts += 1;
        at_once(Err::<(), _>(attempts))
    });
    assert_eq!(result, Err(Error::Operation(3)));
    assert_eq!(attempts, 3);
}

#[test]
fn a_time_limit_of_zero_allows_one_attempt() {
    let policy: Policy = FaultTolerance::builder()
        .retry(RetryPolicy::new().max_duration(Duration::zero()))
        .build();
    let mut attempts = 0;
    let result = call(&policy, || {
        attempts += 1;
        at_once(Err::<(), _>("failed"))
    });
    assert_eq!(result, Err(Error::Operation("failed")));
    assert_eq!(attempts, 1);
}

#[test]
fn a_probe_that_the_bulkhead_turns_away_opens_the_circuit_again() {
    let circuit = shared(
        CircuitBreakerConfig::new()
            .request_volume_threshold(1)
            .failure_ratio(ratio(1.0))
            .delay(Duration::from_millis(10)),
    );
    let bulkhead = Bulkhead::new(1);
    let policy = FaultTolerance::builder()
        .circuit_breaker(circuit.clone())
        .bulkhead(bulkhead.clone())
        .build();
    let classifier = FailureClassifier::new();
    let mut clock = Clock { millis: 0 };

    let failed = drive(&policy, &classifier, &mut clock, || at_once(Err::<(), _>("failed")));
    assert_eq!(failed, Err(Error::Operation("failed")));

    clock.millis = 10;
    let held = bulkhead.try_acquire();
    let mut ran = false;
    let probe = drive(&policy, &classifier, &mut clock, || {
        ran = true;
        at_once(Ok::<_, &'static str>(()))
    });
    assert_eq!(probe, Err(Error::BulkheadRejected));
    assert!(!ran);
    assert_eq!(state(&circuit), CircuitBreakerState::Open);

    drop(held);
    clock.millis = 19;
    let early = drive(&policy, &classifier, &mut clock, || at_once(Ok::<_, &'static str>(())));
    assert_eq!(early, Err(Error::CircuitOpen));
    clock.millis = 20;
    let next = drive(&policy, &classifier, &mut clock, || at_once(Ok::<_, &'static str>(())));
    assert_eq!(next, Ok(()));
    assert_eq!(state(&circuit), CircuitBreakerState::Closed);
}

fn same_breaker(first: &Policy, second: &Policy) -> bool {
    let first = first.circuit_breaker().unwrap();
    let second = second.circuit_breaker().unwrap();
    std::ptr::eq(first.guard(), second.guard())
}

#[test]
fn the_permit_is_back_whatever_the_result() {
    let bulkhead = Bulkhead::new(1);
    let circuit = shared(CircuitBreakerConfig::new());
    let policy = FaultTolerance::builder()
        .bulkhead(bulkhead.clone())
        .circuit_breaker(circuit)
        .timeout(Duration::from_millis(5))
        .build();
    for outcome in [
        at_once(Ok("ok")),
        at_once(Err("failed")),
        Outcome { takes_ms: 9, result: Ok("late") },
    ] {
        let mut outcome = Some(outcome);
        let mut free_while_running = true;
        let _ = call(&policy, || {
            free_while_running = bulkhead.try_acquire().is_ok();
            outcome.take().unwrap()
        });
        assert!(!free_while_running);
        assert!(bulkhead.try_acquire().is_ok());
    }
}

#[test]
fn the_permit_is_back_before_the_circuit_is_told() {
    let bulkhead = Bulkhead::new(1);
    let policy: Policy = FaultTolerance::builder()
        .bulkhead(bulkhead.clone())
        .circuit_breaker(shared(CircuitBreakerConfig::new()))
        .build();
    let now = Instant::at(Duration::zero());
    let classifier = FailureClassifier::<&'static str>::new();
    let Step::EnterCircuit(entering) = policy.start_call::<(), &'static str>(now) else {
        panic!("the circuit breaker is not asked");
    };
    let Step::EnterBulkhead(entering) =
        entering.replied::<(), _>(Ok(CircuitPermit::Closed), &classifier, now)
    else {
        panic!("the bulkhead is not asked");
    };
    let Step::Run(running) =
        entering.replied::<(), _>(bulkhead.try_acquire(), &classifier, now)
    else {
        panic!("the operation does not run");
    };
    assert!(bulkhead.try_acquire().is_err());
    let step = running.finished::<(), _>(Some(Err("failed")), &classifier, now);
    assert!(matches!(step, Step::Report(_)));
    assert!(bulkhead.try_acquire().is_ok());
}

#[test]
fn a_call_that_is_given_up_drops_its_permit() {
    let bulkhead = Bulkhead::new(1);
    let policy: Policy = FaultTolerance::builder().bulkhead(bulkhead.clone()).build();
    let now = Instant::at(Duration::zero());
    let classifier = FailureClassifier::<&'static str>::new();
    let Step::EnterBulkhead(entering) = policy.start_call::<(), &'static str>(now) else {
        panic!("the bulkhead is not asked");
    };
    let step = entering.replied::<(), _>(bulkhead.try_acquire(), &classifier, now);
    assert!(matches!(step, Step::Run(_)));
    assert!(bulkhead.try_acquire().is_err());
    drop(step);
    assert!(bulkhead.try_acquire().is_ok());
}

#[test]
fn clones_of_a_shared_breaker_show_one_state() {
    let first = shared(
        CircuitBreakerConfig::new().request_volume_threshold(2).failure_ratio(ratio(1.0)),
    );
    let second = first.clone();
    let now = Instant::at(Duration::zero());
    first.guard().lock().unwrap().after_call(false, CircuitPermit::Closed, now);
    assert_eq!(state(&second), CircuitBreakerState::Closed);
    second.guard().lock().unwrap().after_call(false, CircuitPermit::Closed, now);
    assert_eq!(state(&first), CircuitBreakerState::Open);
    assert_eq!(state(&second), CircuitBreakerState::Open);
}

#[test]
fn evaluations_of_one_method_share_their_parts() {
    let plan = first_plan(vec![Item::Method(Method {
        attributes: vec![
            attribute("timeout", vec![integer_argument("ms", "250")]),
            attribute("circuit_breaker", vec![integer_argument("delay_ms", "7")]),
            attribute("bulkhead", vec![integer_argument("max_concurrent", "1")]),
        ],
        signature: signature("fetch", &[]),
    })]);
    let share = |breaker| SharedBreaker::new(Mutex::new(breaker));
    let mut parts: SharedParts<Breaker> = SharedParts::new();
    let first = plan.policy.policy(&mut parts, share);
    let second = plan.policy.policy(&mut parts, share);
    assert_eq!(first.timeout(), Some(Duration::from_millis(250)));
    assert_eq!(first.retry(), None);
    assert!(same_breaker(&first, &second));
    let held = first.bulkhead().unwrap().try_acquire();
    assert!(held.is_ok());
    assert!(second.bulkhead().unwrap().try_acquire().is_err());

    let mut other_parts = SharedParts::new();
    let other = plan.policy.policy(&mut other_parts, share);
    assert!(!same_breaker(&first, &other));
    assert!(other.bulkhead().unwrap().try_acquire().is_ok());
}

#[test]
fn every_retry_gets_the_whole_timeout() {
    let policy: Policy = FaultTolerance::builder()
        .timeout(Duration::from_millis(5))
        .retry(RetryPolicy::new().max_retries(2))
        .build();
    let mut clock = Clock { millis: 0 };
    let mut attempts = 0;
    let result = drive(&policy, &FailureClassifier::new(), &mut clock, || {
        attempts += 1;
        Outcome { takes_ms: 5 + 5 * (3 - attempts), result: Ok::<_, &'static str>(attempts) }
    });
    assert_eq!(result, Ok(3));
    assert_eq!(clock.millis, 15);
}

#[test]
fn every_retry_asks_the_circuit_again() {
    let circuit = shared(
        CircuitBreakerConfig::new()
            .request_volume_threshold(2)
            .failure_ratio(ratio(1.0))
            .delay(Duration::from_secs(1)),
    );
    let policy = FaultTolerance::builder()
        .circuit_breaker(circuit.clone())
        .retry(RetryPolicy::new().max_retries(5))
        .build();
    let mut attempts = 0;
    let result = call(&policy, || {
        attempts += 1;
        at_once(Err::<(), _>("failed"))
    });
    assert_eq!(result, Err(Error::CircuitOpen));
    assert_eq!(attempts, 2);
    assert_eq!(state(&circuit), CircuitBreakerState::Open);
}

#[test]
fn a_timeout_counts_against_the_circuit() {
    let circuit =
        shared(CircuitBreakerConfig::new().request_volume_threshold(1).failure_ratio(ratio(1.0)));
    let policy = FaultTolerance::builder()
        .circuit_breaker(circuit.clone())
        .timeout(Duration::from_millis(1))
        .build();
    let result = call(&policy, || Outcome { takes_ms: 2, result: Ok::<_, &'static str>(()) });
    assert_eq!(result, Err(Error::Timeout));
    assert_eq!(state(&circuit), CircuitBreakerState::Open);
}

#[test]
fn the_circuit_hears_nothing_of_a_full_bulkhead() {
    let circuit =
        shared(CircuitBreakerConfig::new().request_volume_threshold(1).failure_ratio(ratio(1.0)));
    let bulkhead = Bulkhead::new(1);
    let held = bulkhead.try_acquire();
    let policy = FaultTolerance::builder()
        .circuit_breaker(circuit.clone())
        .bulkhead(bulkhead)
        .build();
    let result = call(&policy, || at_once(Ok::<_, &'static str>(())));
    assert_eq!(result, Err(Error::BulkheadRejected));
    assert_eq!(state(&circuit), CircuitBreakerState::Closed);
    drop(held);
    assert_eq!(call(&policy, || at_once(Ok::<_, &'static str>(()))), Ok(()));
}

#[test]
fn a_zero_delay_is_not_waited_for() {
    let policy: Policy = FaultTolerance::builder().retry(RetryPolicy::new()).build();
    let now = Instant::at(Duration::zero());
    let classifier = FailureClassifier::<&'static str>::new();
    let Step::Run(running) = policy.start_call::<(), &'static str>(now) else {
        panic!("the operation is not first");
    };
    let Step::Backoff(backing_off) = running.finished::<(), _>(Some(Err("no")), &classifier, now)
    else {
        panic!("there is no retry");
    };
    assert_eq!(backing_off.delay(), None);
}

#[test]
fn the_delay_of_a_retry_is_waited_for() {
    let policy: Policy = FaultTolerance::builder()
        .retry(RetryPolicy::new().delay(Duration::from_millis(7)))
        .build();
    let now = Instant::at(Duration::zero());
    let classifier = FailureClassifier::<&'static str>::new();
    let Step::Run(running) = policy.start_call::<(), &'static str>(now) else {
        panic!("the operation is not first");
    };
    let Step::Backoff(backing_off) = running.finished::<(), _>(Some(Err("no")), &classifier, now)
    else {
        panic!("there is no retry");
    };
    assert_eq!(backing_off.delay(), Some(Duration::from_millis(7)));
}

#[test]
fn attempts_end_with_a_value_an_error_or_a_timeout() {
    assert_eq!(attempt_result(Some(Ok::<_, u8>("ok"))), Ok("ok"));
    assert_eq!(attempt_result(Some(Err::<u8, _>("no"))), Err(Error::Operation("no")));
    assert_eq!(attempt_result::<u8, u8>(None), Err(Error::Timeout));
}

#[test]
fn the_error_of_a_fallback_is_an_operation_error() {
    assert_eq!(fallback_result(Ok::<_, u8>("ok")), Ok("ok"));
    assert_eq!(fallback_result(Err::<u8, _>("no")), Err(Error::Operation("no")));
}

#[test]
fn fallback_can_be_for_some_operation_errors() {
    let classifier = FailureClassifier::new()
        .fallback_on_operation(|error: &u8| *error < 10)
        .skip_fallback_on_operation(|error| *error == 3);
    let step = |error| classified_fallback_step::<(), u8>(&classifier, Err(error));
    assert!(matches!(step(Error::Operation(2)), FallbackStep::Fallback(Error::Operation(2))));
    assert!(matches!(step(Error::Operation(3)), FallbackStep::Failed(Error::Operation(3))));
    assert!(matches!(step(Error::Operation(10)), FallbackStep::Failed(Error::Operation(10))));
    assert!(matches!(step(Error::Timeout), FallbackStep::Failed(Error::Timeout)));
    assert!(matches!(
        classified_fallback_step::<u8, u8>(&classifier, Ok(5)),
        FallbackStep::Succeeded(5)
    ));
}

#[test]
fn clones_of_a_policy_share_their_circuit_breaker() {
    let circuit = shared(
        CircuitBreakerConfig::new().request_volume_threshold(1).failure_ratio(ratio(1.0)),
    );
    let policy = FaultTolerance::builder().circuit_breaker(circuit).build();
    let copy = policy.clone();
    assert_eq!(
        call(&policy, || at_once(Err::<(), _>("failed"))),
        Err(Error::Operation("failed"))
    );
    assert_eq!(call(&copy, || at_once(Ok::<_, &'static str>(()))), Err(Error::CircuitOpen));
}

#[test]
fn a_builder_can_be_reused() {
    let builder = Policy::builder()
        .timeout(Duration::from_millis(5))
        .retry(RetryPolicy::new().max_retries(7))
        .bulkhead(Bulkhead::new(2));
    let policy = builder.clone().build();
    assert_eq!(policy.timeout(), Some(Duration::from_millis(5)));
    assert_eq!(policy.retry(), Some(RetryPolicy::new().max_retries(7)));
    assert!(policy.circuit_breaker().is_none());
    assert!(policy.bulkhead().is_some());
    assert_eq!(builder.build().timeout(), policy.timeout());
}
