//! Classification rules for retry, fallback and circuit breaker decisions.

use std::sync::Arc;

use vstd::prelude::*;

use crate::error::Error;

verus! {

/// A predicate over errors that a rule holds.
trait FailurePredicate<E>: Send + Sync {
    /// Whether the predicate can be asked about `error`.
    spec fn answerable(&self, error: Error<&E>) -> bool;

    /// Whether the predicate can answer `answer` when asked about `error`.
    spec fn can_answer(&self, error: Error<&E>, answer: bool) -> bool;

    /// Asks the predicate about `error`.
    fn ask(&self, error: Error<&E>) -> (answer: bool)
        requires
            self.answerable(error),
        ensures
            self.can_answer(error, answer),
    ;
}

/// A predicate that sees every error.
struct OnError<F> {
    predicate: F,
}

impl<E, F: Fn(Error<&E>) -> bool + Send + Sync> FailurePredicate<E> for OnError<F> {
    closed spec fn answerable(&self, error: Error<&E>) -> bool {
        call_requires(self.predicate, (error,))
    }

    closed spec fn can_answer(&self, error: Error<&E>, answer: bool) -> bool {
        call_ensures(self.predicate, (error,), answer)
    }

    fn ask(&self, error: Error<&E>) -> (answer: bool) {
        (self.predicate)(error)
    }
}

/// A predicate that sees operation errors only, and says no to the others.
struct OnOperation<F> {
    predicate: F,
}

impl<E, F: Fn(&E) -> bool + Send + Sync> FailurePredicate<E> for OnOperation<F> {
    closed spec fn answerable(&self, error: Error<&E>) -> bool {
        error matches Error::Operation(error) ==> call_requires(self.predicate, (error,))
    }

    closed spec fn can_answer(&self, error: Error<&E>, answer: bool) -> bool {
        operation_answer(self.predicate, error, answer)
    }

    fn ask(&self, error: Error<&E>) -> (answer: bool) {
        match error {
            Error::Operation(error) => (self.predicate)(error),
            Error::Timeout | Error::CircuitOpen | Error::BulkheadRejected => false,
        }
    }
}

/// What a predicate over operation errors can answer about any error: it is
/// asked about an operation error, and the answer about another is no.
pub open spec fn operation_answer<E, F: Fn(&E) -> bool>(
    predicate: F,
    error: Error<&E>,
    answer: bool,
) -> bool {
    match error {
        Error::Operation(error) => call_ensures(predicate, (error,), answer),
        _ => !answer,
    }
}

/// The rules that a classifier can hold.
pub enum Rule {
    /// Failures to retry.
    RetryOn,
    /// Failures not to retry.
    AbortOn,
    /// Failures that trigger fallback.
    FallbackOn,
    /// Failures that do not trigger fallback.
    SkipFallbackOn,
    /// Failures that count against the circuit.
    CircuitFailureOn,
    /// Failures that do not count against the circuit.
    CircuitSkipOn,
}

/// One rule of a classifier: a predicate, where one was given.
#[verifier::reject_recursive_types(E)]
struct RulePredicate<E> {
    predicate: Option<Arc<Box<dyn FailurePredicate<E>>>>,
}

impl<E> RulePredicate<E> {
    #[verifier::type_invariant]
    spec fn always_answerable(self) -> bool {
        self.predicate matches Some(predicate) ==> forall|error: Error<&E>| #[trigger]
            predicate.answerable(error)
    }

    spec fn given(&self) -> bool {
        self.predicate is Some
    }

    spec fn can_answer(&self, error: Error<&E>, answer: bool) -> bool {
        self.predicate matches Some(predicate) && predicate.can_answer(error, answer)
    }

    fn absent() -> (rule: Self)
        ensures
            !rule.given(),
    {
        RulePredicate { predicate: None }
    }

    fn on_error<F: Fn(Error<&E>) -> bool + Send + Sync + 'static>(predicate: F) -> (rule: Self)
        requires
            forall|error: Error<&E>| call_requires(predicate, (error,)),
        ensures
            rule.given(),
            forall|error: Error<&E>, answer: bool| #[trigger]
                rule.can_answer(error, answer) == call_ensures(predicate, (error,), answer),
    {
        let boxed: Box<dyn FailurePredicate<E>> = Box::new(OnError { predicate });
        proof {
            let concrete = OnError { predicate };
            assert forall|error: Error<&E>| #[trigger] boxed.answerable(error) by {
                assert(<OnError<F> as FailurePredicate<E>>::answerable(&concrete, error));
            }
            assert forall|error: Error<&E>, answer: bool| #[trigger]
                boxed.can_answer(error, answer) == call_ensures(predicate, (error,), answer) by {
                assert(<OnError<F> as FailurePredicate<E>>::can_answer(&concrete, error, answer)
                    == call_ensures(predicate, (error,), answer));
            }
        }
        let shared = Arc::new(boxed);
        assert(*shared == boxed);
        assert(forall|error: Error<&E>| #[trigger] (*shared).answerable(error));
        RulePredicate { predicate: Some(shared) }
    }

    fn on_operation<F: Fn(&E) -> bool + Send + Sync + 'static>(predicate: F) -> (rule: Self)
        requires
            forall|error: &E| call_requires(predicate, (error,)),
        ensures
            rule.given(),
            forall|error: Error<&E>, answer: bool| #[trigger]
                rule.can_answer(error, answer) == operation_answer(predicate, error, answer),
    {
        let boxed: Box<dyn FailurePredicate<E>> = Box::new(OnOperation { predicate });
        proof {
            let concrete = OnOperation { predicate };
            assert forall|error: Error<&E>| #[trigger] boxed.answerable(error) by {
                assert(<OnOperation<F> as FailurePredicate<E>>::answerable(&concrete, error));
            }
            assert forall|error: Error<&E>, answer: bool| #[trigger]
                boxed.can_answer(error, answer) == operation_answer(predicate, error, answer) by {
                assert(<OnOperation<F> as FailurePredicate<E>>::can_answer(
                    &concrete,
                    error,
                    answer,
                ) == operation_answer(predicate, error, answer));
            }
        }
        let shared = Arc::new(boxed);
        assert(*shared == boxed);
        assert(forall|error: Error<&E>| #[trigger] (*shared).answerable(error));
        RulePredicate { predicate: Some(shared) }
    }

    /// What the rule says of `error`, where it was given.
    fn ask(&self, error: Error<&E>) -> (answer: Option<bool>)
        ensures
            answer is Some <==> self.given(),
            answer matches Some(answer) ==> self.can_answer(error, answer),
    {
        proof {
            use_type_invariant(self);
        }
        match &self.predicate {
            Some(predicate) => Some(predicate.ask(error)),
            None => None,
        }
    }
}

impl<E> Clone for RulePredicate<E> {
    fn clone(&self) -> (rule: Self)
        ensures
            rule == *self,
    {
        proof {
            use_type_invariant(self);
        }
        match &self.predicate {
            Some(predicate) => RulePredicate { predicate: Some(Arc::clone(predicate)) },
            None => RulePredicate { predicate: None },
        }
    }
}

/// Classification rules for retry, fallback and circuit breaker decisions.
///
/// A classifier holds up to six predicates over [`Error`], one for each
/// [`Rule`]. Three decisions rest on them, two rules each: a rule that rules a
/// failure out goes before the rule that lets it in, and a rule that was not
/// given stands in nobody's way.
#[verifier::reject_recursive_types(E)]
pub struct FailureClassifier<E> {
    retry_on: RulePredicate<E>,
    abort_on: RulePredicate<E>,
    fallback_on: RulePredicate<E>,
    skip_fallback_on: RulePredicate<E>,
    circuit_failure_on: RulePredicate<E>,
    circuit_skip_on: RulePredicate<E>,
}

impl<E> FailureClassifier<E> {
    spec fn rule(&self, rule: Rule) -> RulePredicate<E> {
        match rule {
            Rule::RetryOn => self.retry_on,
            Rule::AbortOn => self.abort_on,
            Rule::FallbackOn => self.fallback_on,
            Rule::SkipFallbackOn => self.skip_fallback_on,
            Rule::CircuitFailureOn => self.circuit_failure_on,
            Rule::CircuitSkipOn => self.circuit_skip_on,
        }
    }

    /// Whether the classifier was given a predicate for `rule`.
    pub closed spec fn given(&self, rule: Rule) -> bool {
        self.rule(rule).given()
    }

    /// Whether the predicate for `rule` can answer `answer` about `error`.
    pub closed spec fn can_answer(&self, rule: Rule, error: Error<&E>, answer: bool) -> bool {
        self.rule(rule).can_answer(error, answer)
    }

    /// Whether the decision on `error` that the rules `skip` and `on` make
    /// together can come out as `decision`: no where `skip` says yes, else what
    /// `on` says, and yes where neither was given.
    pub open spec fn can_decide(
        &self,
        skip: Rule,
        on: Rule,
        error: Error<&E>,
        decision: bool,
    ) -> bool {
        ||| !decision && self.given(skip) && self.can_answer(skip, error, true)
        ||| {
            &&& self.given(skip) ==> self.can_answer(skip, error, false)
            &&& if self.given(on) {
                self.can_answer(on, error, decision)
            } else {
                decision
            }
        }
    }

    /// Whether `error` can be found worth a retry, or not.
    pub open spec fn can_retry(&self, error: Error<&E>, decision: bool) -> bool {
        self.can_decide(Rule::AbortOn, Rule::RetryOn, error, decision)
    }

    /// Whether `error` can be found a case for fallback, or not.
    pub open spec fn can_fallback(&self, error: Error<&E>, decision: bool) -> bool {
        self.can_decide(Rule::SkipFallbackOn, Rule::FallbackOn, error, decision)
    }

    /// Whether `error` can be found to count against the circuit, or not.
    pub open spec fn can_count(&self, error: Error<&E>, decision: bool) -> bool {
        self.can_decide(Rule::CircuitSkipOn, Rule::CircuitFailureOn, error, decision)
    }

    /// Whether this classifier has the rules of `other`, apart from `changed`.
    pub open spec fn keeps_other_rules(&self, other: &Self, changed: Rule) -> bool {
        forall|rule: Rule| rule != changed ==> {
            &&& #[trigger] self.given(rule) == other.given(rule)
            &&& forall|error: Error<&E>, answer: bool| #[trigger]
                self.can_answer(rule, error, answer) == other.can_answer(rule, error, answer)
        }
    }

    /// Creates a classifier with permissive defaults.
    ///
    /// All failures are retryable, trigger fallback and count as circuit breaker
    /// failures. Add predicates to narrow that behaviour.
    pub fn new() -> (classifier: Self)
        ensures
            forall|rule: Rule| !classifier.given(rule),
    {
        FailureClassifier {
            retry_on: RulePredicate::absent(),
            abort_on: RulePredicate::absent(),
            fallback_on: RulePredicate::absent(),
            skip_fallback_on: RulePredicate::absent(),
            circuit_failure_on: RulePredicate::absent(),
            circuit_skip_on: RulePredicate::absent(),
        }
    }

    /// Retries only when `predicate` returns true.
    pub fn retry_on_error(
        self,
        predicate: impl Fn(Error<&E>) -> bool + Send + Sync + 'static,
    ) -> (classifier: Self)
        requires
            forall|error: Error<&E>| call_requires(predicate, (error,)),
        ensures
            classifier.given(Rule::RetryOn),
            forall|error: Error<&E>, answer: bool| #[trigger]
                classifier.can_answer(Rule::RetryOn, error, answer) == call_ensures(
                    predicate,
                    (error,),
                    answer,
                ),
            classifier.keeps_other_rules(&self, Rule::RetryOn),
    {
        FailureClassifier { retry_on: RulePredicate::on_error(predicate), ..self }
    }

    /// Prevents retries when `predicate` returns true.
    pub fn abort_on_error(
        self,
        predicate: impl Fn(Error<&E>) -> bool + Send + Sync + 'static,
    ) -> (classifier: Self)
        requires
            forall|error: Error<&E>| call_requires(predicate, (error,)),
        ensures
            classifier.given(Rule::AbortOn),
            forall|error: Error<&E>, answer: bool| #[trigger]
                classifier.can_answer(Rule::AbortOn, error, answer) == call_ensures(
                    predicate,
                    (error,),
                    answer,
                ),
            classifier.keeps_other_rules(&self, Rule::AbortOn),
    {
        FailureClassifier { abort_on: RulePredicate::on_error(predicate), ..self }
    }

    /// Applies fallback only when `predicate` returns true.
    pub fn fallback_on_error(
        self,
        predicate: impl Fn(Error<&E>) -> bool + Send + Sync + 'static,
    ) -> (classifier: Self)
        requires
            forall|error: Error<&E>| call_requires(predicate, (error,)),
        ensures
            classifier.given(Rule::FallbackOn),
            forall|error: Error<&E>, answer: bool| #[trigger]
                classifier.can_answer(Rule::FallbackOn, error, answer) == call_ensures(
                    predicate,
                    (error,),
                    answer,
                ),
            classifier.keeps_other_rules(&self, Rule::FallbackOn),
    {
        FailureClassifier { fallback_on: RulePredicate::on_error(predicate), ..self }
    }

    /// Skips fallback when `predicate` returns true.
    pub fn skip_fallback_on_error(
        self,
        predicate: impl Fn(Error<&E>) -> bool + Send + Sync + 'static,
    ) -> (classifier: Self)
        requires
            forall|error: Error<&E>| call_requires(predicate, (error,)),
        ensures
            classifier.given(Rule::SkipFallbackOn),
            forall|error: Error<&E>, answer: bool| #[trigger]
                classifier.can_answer(Rule::SkipFallbackOn, error, answer) == call_ensures(
                    predicate,
                    (error,),
                    answer,
                ),
            classifier.keeps_other_rules(&self, Rule::SkipFallbackOn),
    {
        FailureClassifier { skip_fallback_on: RulePredicate::on_error(predicate), ..self }
    }

    /// Counts only failures where `predicate` returns true against the circuit.
    pub fn circuit_failure_on_error(
        self,
        predicate: impl Fn(Error<&E>) -> bool + Send + Sync + 'static,
    ) -> (classifier: Self)
        requires
            forall|error: Error<&E>| call_requires(predicate, (error,)),
        ensures
            classifier.given(Rule::CircuitFailureOn),
            forall|error: Error<&E>, answer: bool| #[trigger]
                classifier.can_answer(Rule::CircuitFailureOn, error, answer) == call_ensures(
                    predicate,
                    (error,),
                    answer,
                ),
            classifier.keeps_other_rules(&self, Rule::CircuitFailureOn),
    {
        FailureClassifier { circuit_failure_on: RulePredicate::on_error(predicate), ..self }
    }

    /// Prevents failures where `predicate` returns true from counting against
    /// the circuit.
    pub fn circuit_skip_on_error(
        self,
        predicate: impl Fn(Error<&E>) -> bool + Send + Sync + 'static,
    ) -> (classifier: Self)
        requires
            forall|error: Error<&E>| call_requires(predicate, (error,)),
        ensures
            classifier.given(Rule::CircuitSkipOn),
            forall|error: Error<&E>, answer: bool| #[trigger]
                classifier.can_answer(Rule::CircuitSkipOn, error, answer) == call_ensures(
                    predicate,
                    (error,),
                    answer,
                ),
            classifier.keeps_other_rules(&self, Rule::CircuitSkipOn),
    {
        FailureClassifier { circuit_skip_on: RulePredicate::on_error(predicate), ..self }
    }

    /// Retries only operation errors where `predicate` returns true.
    pub fn retry_on_operation(
        self,
        predicate: impl Fn(&E) -> bool + Send + Sync + 'static,
    ) -> (classifier: Self)
        requires
            forall|error: &E| call_requires(predicate, (error,)),
        ensures
            classifier.given(Rule::RetryOn),
            forall|error: Error<&E>, answer: bool| #[trigger]
                classifier.can_answer(Rule::RetryOn, error, answer) == operation_answer(
                    predicate,
                    error,
                    answer,
                ),
            classifier.keeps_other_rules(&self, Rule::RetryOn),
    {
        FailureClassifier { retry_on: RulePredicate::on_operation(predicate), ..self }
    }

    /// Prevents retries for operation errors where `predicate` returns true.
    pub fn abort_on_operation(
        self,
        predicate: impl Fn(&E) -> bool + Send + Sync + 'static,
    ) -> (classifier: Self)
        requires
            forall|error: &E| call_requires(predicate, (error,)),
        ensures
            classifier.given(Rule::AbortOn),
            forall|error: Error<&E>, answer: bool| #[trigger]
                classifier.can_answer(Rule::AbortOn, error, answer) == operation_answer(
                    predicate,
                    error,
                    answer,
                ),
            classifier.keeps_other_rules(&self, Rule::AbortOn),
    {
        FailureClassifier { abort_on: RulePredicate::on_operation(predicate), ..self }
    }

    /// Applies fallback only for operation errors where `predicate` returns true.
    pub fn fallback_on_operation(
        self,
        predicate: impl Fn(&E) -> bool + Send + Sync + 'static,
    ) -> (classifier: Self)
        requires
            forall|error: &E| call_requires(predicate, (error,)),
        ensures
            classifier.given(Rule::FallbackOn),
            forall|error: Error<&E>, answer: bool| #[trigger]
                classifier.can_answer(Rule::FallbackOn, error, answer) == operation_answer(
                    predicate,
                    error,
                    answer,
                ),
            classifier.keeps_other_rules(&self, Rule::FallbackOn),
    {
        FailureClassifier { fallback_on: RulePredicate::on_operation(predicate), ..self }
    }

    /// Skips fallback for operation errors where `predicate` returns true.
    pub fn skip_fallback_on_operation(
        self,
        predicate: impl Fn(&E) -> bool + Send + Sync + 'static,
    ) -> (classifier: Self)
        requires
            forall|error: &E| call_requires(predicate, (error,)),
        ensures
            classifier.given(Rule::SkipFallbackOn),
            forall|error: Error<&E>, answer: bool| #[trigger]
                classifier.can_answer(Rule::SkipFallbackOn, error, answer) == operation_answer(
                    predicate,
                    error,
                    answer,
                ),
            classifier.keeps_other_rules(&self, Rule::SkipFallbackOn),
    {
        FailureClassifier { skip_fallback_on: RulePredicate::on_operation(predicate), ..self }
    }

    /// Counts only operation errors where `predicate` returns true against the
    /// circuit.
    pub fn circuit_failure_on_operation(
        self,
        predicate: impl Fn(&E) -> bool + Send + Sync + 'static,
    ) -> (classifier: Self)
        requires
            forall|error: &E| call_requires(predicate, (error,)),
        ensures
            classifier.given(Rule::CircuitFailureOn),
            forall|error: Error<&E>, answer: bool| #[trigger]
                classifier.can_answer(Rule::CircuitFailureOn, error, answer) == operation_answer(
                    predicate,
                    error,
                    answer,
                ),
            classifier.keeps_other_rules(&self, Rule::CircuitFailureOn),
    {
        FailureClassifier { circuit_failure_on: RulePredicate::on_operation(predicate), ..self }
    }

    /// Prevents operation errors where `predicate` returns true from counting
    /// against the circuit.
    pub fn circuit_skip_on_operation(
        self,
        predicate: impl Fn(&E) -> bool + Send + Sync + 'static,
    ) -> (classifier: Self)
        requires
            forall|error: &E| call_requires(predicate, (error,)),
        ensures
            classifier.given(Rule::CircuitSkipOn),
            forall|error: Error<&E>, answer: bool| #[trigger]
                classifier.can_answer(Rule::CircuitSkipOn, error, answer) == operation_answer(
                    predicate,
                    error,
                    answer,
                ),
            classifier.keeps_other_rules(&self, Rule::CircuitSkipOn),
    {
        FailureClassifier { circuit_skip_on: RulePredicate::on_operation(predicate), ..self }
    }

    /// The classifier as text for a programmer. The predicates have none.
    pub fn debug_text(&self) -> (text: String)
        ensures
            text@ == "FailureClassifier { .. }"@,
    {
        "FailureClassifier { .. }".to_owned()
    }

    /// Whether a failed attempt with `error` is worth a retry.
    pub fn should_retry(&self, error: Error<&E>) -> (decision: bool)
        ensures
            self.can_retry(error, decision),
    {
        if self.abort_on.ask(same_error(&error)) == Some(true) {
            return false;
        }
        match self.retry_on.ask(error) {
            Some(answer) => answer,
            None => true,
        }
    }

    /// Whether a call that failed with `error` is a case for fallback.
    pub fn should_fallback(&self, error: Error<&E>) -> (decision: bool)
        ensures
            self.can_fallback(error, decision),
    {
        if self.skip_fallback_on.ask(same_error(&error)) == Some(true) {
            return false;
        }
        match self.fallback_on.ask(error) {
            Some(answer) => answer,
            None => true,
        }
    }

    /// Whether a call that failed with `error` counts against the circuit.
    pub fn is_circuit_failure(&self, error: Error<&E>) -> (decision: bool)
        ensures
            self.can_count(error, decision),
    {
        if self.circuit_skip_on.ask(same_error(&error)) == Some(true) {
            return false;
        }
        match self.circuit_failure_on.ask(error) {
            Some(answer) => answer,
            None => true,
        }
    }
}

/// The same borrowed error once more, for a second predicate.
fn same_error<'a, E>(error: &Error<&'a E>) -> (same: Error<&'a E>)
    ensures
        same == *error,
{
    match error {
        Error::Operation(error) => Error::Operation(*error),
        Error::Timeout => Error::Timeout,
        Error::CircuitOpen => Error::CircuitOpen,
        Error::BulkheadRejected => Error::BulkheadRejected,
    }
}

impl<E> Clone for FailureClassifier<E> {
    /// A classifier with the same rules; the predicates are shared.
    fn clone(&self) -> (classifier: Self)
        ensures
            classifier == *self,
    {
        FailureClassifier {
            retry_on: self.retry_on.clone(),
            abort_on: self.abort_on.clone(),
            fallback_on: self.fallback_on.clone(),
            skip_fallback_on: self.skip_fallback_on.clone(),
            circuit_failure_on: self.circuit_failure_on.clone(),
            circuit_skip_on: self.circuit_skip_on.clone(),
        }
    }
}

impl<E> Default for FailureClassifier<E> {
    /// The classifier of [`FailureClassifier::new`].
    fn default() -> (classifier: Self)
        ensures
            forall|rule: Rule| !classifier.given(rule),
    {
        FailureClassifier::new()
    }
}

/// Without rules every failure is retried, triggers fallback and counts against
/// the circuit.
pub proof fn law_no_rules_is_permissive<E>(
    classifier: FailureClassifier<E>,
    error: Error<&E>,
    decision: bool,
)
    requires
        forall|rule: Rule| !classifier.given(rule),
    ensures
        classifier.can_retry(error, decision) <==> decision,
        classifier.can_fallback(error, decision) <==> decision,
        classifier.can_count(error, decision) <==> decision,
{
}

/// A rule that rules a failure out decides alone: where its predicate can only
/// say yes, the decision is no, whatever the other rule says.
pub proof fn law_skip_rule_goes_first<E>(
    classifier: FailureClassifier<E>,
    skip: Rule,
    on: Rule,
    error: Error<&E>,
    decision: bool,
)
    requires
        classifier.given(skip),
        classifier.can_answer(skip, error, true),
        !classifier.can_answer(skip, error, false),
    ensures
        classifier.can_decide(skip, on, error, decision) <==> !decision,
{
}

} // verus!
