use axum_fault_tolerance::{Error, FailureClassifier};

type Classifier = FailureClassifier<u8>;

const POLICY_ERRORS: [Error<&u8>; 3] =
    [Error::Timeout, Error::CircuitOpen, Error::BulkheadRejected];

#[test]
fn without_rules_every_failure_matters() {
    for classifier in [Classifier::new(), Classifier::default(), Classifier::new().clone()] {
        for error in [Error::Operation(&1), Error::Timeout, Error::CircuitOpen] {
            assert!(classifier.should_retry(error.clone()));
            assert!(classifier.should_fallback(error.clone()));
            assert!(classifier.is_circuit_failure(error));
        }
    }
}

#[test]
fn rules_see_every_error() {
    let classifier = Classifier::new()
        .retry_on_error(|error| error == Error::Timeout)
        .fallback_on_error(|error| error == Error::CircuitOpen)
        .circuit_failure_on_error(|error| error == Error::Operation(&7));
    assert!(classifier.should_retry(Error::Timeout));
    assert!(!classifier.should_retry(Error::CircuitOpen));
    assert!(!classifier.should_retry(Error::Operation(&7)));
    assert!(classifier.should_fallback(Error::CircuitOpen));
    assert!(!classifier.should_fallback(Error::Timeout));
    assert!(classifier.is_circuit_failure(Error::Operation(&7)));
    assert!(!classifier.is_circuit_failure(Error::Operation(&8)));
    assert!(!classifier.is_circuit_failure(Error::Timeout));
}

#[test]
fn a_rule_that_rules_out_goes_first() {
    let classifier = Classifier::new()
        .retry_on_error(|_| true)
        .abort_on_error(|error| error == Error::Timeout)
        .fallback_on_error(|_| true)
        .skip_fallback_on_error(|error| error == Error::CircuitOpen)
        .circuit_failure_on_error(|_| true)
        .circuit_skip_on_error(|error| error == Error::BulkheadRejected);
    assert!(!classifier.should_retry(Error::Timeout));
    assert!(classifier.should_retry(Error::CircuitOpen));
    assert!(!classifier.should_fallback(Error::CircuitOpen));
    assert!(classifier.should_fallback(Error::BulkheadRejected));
    assert!(!classifier.is_circuit_failure(Error::BulkheadRejected));
    assert!(classifier.is_circuit_failure(Error::Timeout));
}

#[test]
fn rules_on_operations_say_no_to_other_errors() {
    let classifier = Classifier::new()
        .retry_on_operation(|error| *error == 1)
        .fallback_on_operation(|error| *error == 2)
        .circuit_failure_on_operation(|error| *error == 3);
    assert!(classifier.should_retry(Error::Operation(&1)));
    assert!(!classifier.should_retry(Error::Operation(&2)));
    assert!(classifier.should_fallback(Error::Operation(&2)));
    assert!(!classifier.should_fallback(Error::Operation(&3)));
    assert!(classifier.is_circuit_failure(Error::Operation(&3)));
    assert!(!classifier.is_circuit_failure(Error::Operation(&1)));
    for error in POLICY_ERRORS {
        assert!(!classifier.should_retry(error.clone()));
        assert!(!classifier.should_fallback(error.clone()));
        assert!(!classifier.is_circuit_failure(error));
    }
}

#[test]
fn rules_that_rule_out_operations_let_other_errors_pass() {
    let classifier = Classifier::new()
        .abort_on_operation(|error| *error == 1)
        .skip_fallback_on_operation(|error| *error == 2)
        .circuit_skip_on_operation(|error| *error == 3);
    assert!(!classifier.should_retry(Error::Operation(&1)));
    assert!(classifier.should_retry(Error::Operation(&2)));
    assert!(!classifier.should_fallback(Error::Operation(&2)));
    assert!(classifier.should_fallback(Error::Operation(&3)));
    assert!(!classifier.is_circuit_failure(Error::Operation(&3)));
    assert!(classifier.is_circuit_failure(Error::Operation(&1)));
    for error in POLICY_ERRORS {
        assert!(classifier.should_retry(error.clone()));
        assert!(classifier.should_fallback(error.clone()));
        assert!(classifier.is_circuit_failure(error));
    }
}

#[test]
fn the_last_predicate_for_a_rule_holds() {
    let classifier =
        Classifier::new().retry_on_error(|_| false).retry_on_operation(|error| *error == 1);
    assert!(classifier.should_retry(Error::Operation(&1)));
    assert!(!classifier.should_retry(Error::Operation(&2)));
}

#[test]
fn a_classifier_keeps_its_predicates_to_itself() {
    assert_eq!(Classifier::new().debug_text(), "FailureClassifier { .. }");
}

#[test]
fn errors_have_their_texts() {
    let text = |error: Error<u8>| error.message(|error| format!("operation {}", error));
    assert_eq!(text(Error::Operation(4)), "operation 4");
    assert_eq!(text(Error::Timeout), "operation timed out");
    assert_eq!(text(Error::CircuitOpen), "circuit breaker is open");
    assert_eq!(text(Error::BulkheadRejected), "bulkhead rejected the operation");
}

#[test]
fn errors_hold_the_operation_error() {
    assert_eq!(Error::Operation(4u8).as_ref(), Error::Operation(&4));
    assert_eq!(Error::<u8>::Timeout.as_ref(), Error::Timeout);
    assert_eq!(Error::Operation(4u8).source(), Some(&4));
    assert_eq!(Error::<u8>::CircuitOpen.source(), None);
    assert_eq!(Error::Operation(4u8).into_operation(), Some(4));
    assert_eq!(Error::<u8>::BulkheadRejected.into_operation(), None);
}

#[test]
fn policy_errors_fit_every_operation() {
    assert_eq!(Error::<()>::Timeout.map_operation_error::<u8>(), Error::Timeout);
    assert_eq!(Error::<()>::CircuitOpen.map_operation_error::<u8>(), Error::CircuitOpen);
    assert_eq!(
        Error::<()>::BulkheadRejected.map_operation_error::<u8>(),
        Error::BulkheadRejected
    );
}
