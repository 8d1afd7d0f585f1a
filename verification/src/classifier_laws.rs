//! What the decisions of a classifier rest on, and what errors keep.

use vstd::prelude::*;

use crate::classifier::{operation_answer, FailureClassifier, Rule};
use crate::error::Error;

verus! {

/// Whether two classifiers have the same predicate for a rule, as far as its
/// answers tell, or neither has one.
pub open spec fn agree_on<E>(
    first: FailureClassifier<E>,
    second: FailureClassifier<E>,
    rule: Rule,
) -> bool {
    &&& first.given(rule) == second.given(rule)
    &&& forall|error: Error<&E>, answer: bool|
        first.can_answer(rule, error, answer) == second.can_answer(rule, error, answer)
}

/// Whether a yes on an error can come of a rule that rules out and a rule that
/// lets in: neither of those that were given speaks against it.
pub open spec fn yes_can_come<E>(
    classifier: &FailureClassifier<E>,
    skip: Rule,
    on: Rule,
    error: Error<&E>,
) -> bool {
    &&& classifier.given(skip) ==> classifier.can_answer(skip, error, false)
    &&& classifier.given(on) ==> classifier.can_answer(on, error, true)
}

/// Whether a no on an error can come of a rule that rules out and a rule that lets
/// in: one of those that were given speaks for it.
pub open spec fn no_can_come<E>(
    classifier: &FailureClassifier<E>,
    skip: Rule,
    on: Rule,
    error: Error<&E>,
) -> bool {
    ||| classifier.given(skip) && classifier.can_answer(skip, error, true)
    ||| classifier.given(on) && classifier.can_answer(on, error, false)
}

/// The decision on a retry comes of the abort rule and the retry rule.
pub proof fn law_what_a_retry_rests_on<E>(
    classifier: FailureClassifier<E>,
    error: Error<&E>,
    decision: bool,
)
    requires
        call_ensures(FailureClassifier::<E>::should_retry, (&classifier, error), decision),
    ensures
        decision ==> yes_can_come(&classifier, Rule::AbortOn, Rule::RetryOn, error),
        !decision ==> no_can_come(&classifier, Rule::AbortOn, Rule::RetryOn, error),
        classifier.given(Rule::AbortOn) && !classifier.can_answer(Rule::AbortOn, error, false)
            ==> !decision,
{
}

/// The decision on a fallback comes of the skip-fallback rule and the fallback
/// rule. Where neither was given it is yes, whatever other rules were given.
pub proof fn law_what_a_fallback_rests_on<E>(
    classifier: FailureClassifier<E>,
    error: Error<&E>,
    decision: bool,
)
    requires
        call_ensures(FailureClassifier::<E>::should_fallback, (&classifier, error), decision),
    ensures
        decision ==> yes_can_come(&classifier, Rule::SkipFallbackOn, Rule::FallbackOn, error),
        !decision ==> no_can_come(&classifier, Rule::SkipFallbackOn, Rule::FallbackOn, error),
        classifier.given(Rule::SkipFallbackOn) && !classifier.can_answer(
            Rule::SkipFallbackOn,
            error,
            false,
        ) ==> !decision,
        !classifier.given(Rule::SkipFallbackOn) && !classifier.given(Rule::FallbackOn) ==> decision,
{
}

/// Whether a failure counts against the circuit comes of the circuit-skip rule and
/// the circuit-failure rule.
pub proof fn law_what_counting_rests_on<E>(
    classifier: FailureClassifier<E>,
    error: Error<&E>,
    decision: bool,
)
    requires
        call_ensures(FailureClassifier::<E>::is_circuit_failure, (&classifier, error), decision),
    ensures
        decision ==> yes_can_come(&classifier, Rule::CircuitSkipOn, Rule::CircuitFailureOn, error),
        !decision ==> no_can_come(&classifier, Rule::CircuitSkipOn, Rule::CircuitFailureOn, error),
        classifier.given(Rule::CircuitSkipOn) && !classifier.can_answer(
            Rule::CircuitSkipOn,
            error,
            false,
        ) ==> !decision,
{
}

/// Each decision rests on its own two rules alone: classifiers that agree on them
/// can decide alike on every error, however their other rules differ.
pub proof fn law_decisions_are_independent<E>(
    first: FailureClassifier<E>,
    second: FailureClassifier<E>,
    error: Error<&E>,
    decision: bool,
)
    ensures
        agree_on(first, second, Rule::AbortOn) && agree_on(first, second, Rule::RetryOn)
            ==> first.can_retry(error, decision) == second.can_retry(error, decision),
        agree_on(first, second, Rule::SkipFallbackOn) && agree_on(first, second, Rule::FallbackOn)
            ==> first.can_fallback(error, decision) == second.can_fallback(error, decision),
        agree_on(first, second, Rule::CircuitSkipOn) && agree_on(
            first,
            second,
            Rule::CircuitFailureOn,
        ) ==> first.can_count(error, decision) == second.can_count(error, decision),
{
}

/// A decision is yes, and nothing else, where neither of its two rules was given,
/// whatever other rules were.
pub proof fn law_absent_rules_say_yes<E>(
    classifier: FailureClassifier<E>,
    error: Error<&E>,
    decision: bool,
)
    ensures
        !classifier.given(Rule::AbortOn) && !classifier.given(Rule::RetryOn) ==> (
        classifier.can_retry(error, decision) <==> decision),
        !classifier.given(Rule::SkipFallbackOn) && !classifier.given(Rule::FallbackOn) ==> (
        classifier.can_fallback(error, decision) <==> decision),
        !classifier.given(Rule::CircuitSkipOn) && !classifier.given(Rule::CircuitFailureOn) ==> (
        classifier.can_count(error, decision) <==> decision),
{
}

/// A predicate over operation errors is asked about those, and says no to every
/// error of a policy.
pub proof fn law_operation_rules_see_operation_errors<E, F: Fn(&E) -> bool>(
    predicate: F,
    error: E,
    answer: bool,
)
    ensures
        operation_answer(predicate, Error::Operation(&error), answer) == call_ensures(
            predicate,
            (&error,),
            answer,
        ),
        operation_answer(predicate, Error::Timeout, answer) <==> !answer,
        operation_answer(predicate, Error::CircuitOpen, answer) <==> !answer,
        operation_answer(predicate, Error::BulkheadRejected, answer) <==> !answer,
{
}

/// A classifier that keeps all rules of another but one agrees with it on each of
/// them.
pub proof fn law_other_rules_are_kept<E>(
    classifier: FailureClassifier<E>,
    other: FailureClassifier<E>,
    changed: Rule,
    rule: Rule,
)
    requires
        classifier.keeps_other_rules(&other, changed),
        rule != changed,
    ensures
        agree_on(classifier, other, rule),
{
    assert(classifier.given(rule) == other.given(rule));
}

/// A clone of a classifier agrees with it on every rule.
pub proof fn law_clones_agree<E>(
    classifier: FailureClassifier<E>,
    copy: FailureClassifier<E>,
    rule: Rule,
)
    requires
        call_ensures(<FailureClassifier<E> as Clone>::clone, (&classifier,), copy),
    ensures
        agree_on(classifier, copy, rule),
{
}

/// Borrowing keeps the kind of an error and the operation error in it; what is
/// taken out of an error, or borrowed from it, is the operation error, and nothing
/// where there is none.
pub proof fn law_errors_keep_what_they_hold<E>(
    error: Error<E>,
    borrowed: Error<&E>,
    taken: Option<E>,
    cause: Option<&E>,
)
    requires
        call_ensures(Error::<E>::as_ref, (&error,), borrowed),
        call_ensures(Error::<E>::into_operation, (error,), taken),
        call_ensures(Error::<E>::source, (&error,), cause),
    ensures
        borrowed == error.borrowed(),
        borrowed is Operation <==> error is Operation,
        borrowed is Timeout <==> error is Timeout,
        borrowed is CircuitOpen <==> error is CircuitOpen,
        borrowed is BulkheadRejected <==> error is BulkheadRejected,
        taken is Some <==> error is Operation,
        cause is Some <==> error is Operation,
        error matches Error::Operation(operation) ==> borrowed == Error::Operation(&operation)
            && taken == Some(operation) && cause == Some(&operation),
{
}

/// A policy error keeps its kind when it becomes an error of an operation.
pub proof fn law_policy_errors_keep_their_kind<E>(error: Error<()>, mapped: Error<E>)
    requires
        !(error is Operation),
        call_ensures(Error::<()>::map_operation_error::<E>, (error,), mapped),
    ensures
        error is Timeout ==> mapped == Error::<E>::Timeout,
        error is CircuitOpen ==> mapped == Error::<E>::CircuitOpen,
        error is BulkheadRejected ==> mapped == Error::<E>::BulkheadRejected,
{
}

/// A new classifier has no rule, and so has the default one.
pub proof fn law_new_classifiers_have_no_rules<E>(
    new: FailureClassifier<E>,
    default: FailureClassifier<E>,
    rule: Rule,
)
    requires
        call_ensures(FailureClassifier::<E>::new, (), new),
        call_ensures(<FailureClassifier<E> as Default>::default, (), default),
    ensures
        !new.given(rule),
        !default.given(rule),
{
}

/// Whether a predicate over all errors became a rule: the rule was given and answers
/// as the predicate does, and every other rule is as it was.
pub open spec fn becomes_rule<E, F: Fn(Error<&E>) -> bool>(
    before: FailureClassifier<E>,
    predicate: F,
    rule: Rule,
    after: FailureClassifier<E>,
) -> bool {
    &&& after.given(rule)
    &&& forall|error: Error<&E>, answer: bool| #[trigger]
        after.can_answer(rule, error, answer) == call_ensures(predicate, (error,), answer)
    &&& forall|other: Rule| other != rule ==> #[trigger] agree_on(before, after, other)
}

/// Whether a predicate over operation errors became a rule: the rule was given, answers
/// about an operation error as the predicate does and says no to the errors of
/// policies, and every other rule is as it was.
pub open spec fn becomes_operation_rule<E, F: Fn(&E) -> bool>(
    before: FailureClassifier<E>,
    predicate: F,
    rule: Rule,
    after: FailureClassifier<E>,
) -> bool {
    &&& after.given(rule)
    &&& forall|error: E, answer: bool| #[trigger]
        after.can_answer(rule, Error::Operation(&error), answer) == call_ensures(
            predicate,
            (&error,),
            answer,
        )
    &&& forall|answer: bool| #[trigger] after.can_answer(rule, Error::Timeout, answer) == !answer
    &&& forall|answer: bool| #[trigger]
        after.can_answer(rule, Error::CircuitOpen, answer) == !answer
    &&& forall|answer: bool| #[trigger]
        after.can_answer(rule, Error::BulkheadRejected, answer) == !answer
    &&& forall|other: Rule| other != rule ==> #[trigger] agree_on(before, after, other)
}

/// The calls that say what to retry set the retry rule, and no other.
pub proof fn law_retry_calls_set_their_rule<
    E,
    F: Fn(Error<&E>) -> bool + Send + Sync + 'static,
    G: Fn(&E) -> bool + Send + Sync + 'static,
>(
    before: FailureClassifier<E>,
    predicate: F,
    on_error: FailureClassifier<E>,
    operation_predicate: G,
    on_operation: FailureClassifier<E>,
)
    requires
        call_ensures(FailureClassifier::<E>::retry_on_error, (before, predicate), on_error),
        call_ensures(
            FailureClassifier::<E>::retry_on_operation,
            (before, operation_predicate),
            on_operation,
        ),
    ensures
        becomes_rule(before, predicate, Rule::RetryOn, on_error),
        becomes_operation_rule(before, operation_predicate, Rule::RetryOn, on_operation),
{
    lemma_others_agree(before, on_error, Rule::RetryOn);
    lemma_others_agree(before, on_operation, Rule::RetryOn);
}

/// The calls that say what not to retry set the abort rule, and no other.
pub proof fn law_abort_calls_set_their_rule<
    E,
    F: Fn(Error<&E>) -> bool + Send + Sync + 'static,
    G: Fn(&E) -> bool + Send + Sync + 'static,
>(
    before: FailureClassifier<E>,
    predicate: F,
    on_error: FailureClassifier<E>,
    operation_predicate: G,
    on_operation: FailureClassifier<E>,
)
    requires
        call_ensures(FailureClassifier::<E>::abort_on_error, (before, predicate), on_error),
        call_ensures(
            FailureClassifier::<E>::abort_on_operation,
            (before, operation_predicate),
            on_operation,
        ),
    ensures
        becomes_rule(before, predicate, Rule::AbortOn, on_error),
        becomes_operation_rule(before, operation_predicate, Rule::AbortOn, on_operation),
{
    lemma_others_agree(before, on_error, Rule::AbortOn);
    lemma_others_agree(before, on_operation, Rule::AbortOn);
}

/// The calls that say what triggers fallback set the fallback rule, and no other.
pub proof fn law_fallback_calls_set_their_rule<
    E,
    F: Fn(Error<&E>) -> bool + Send + Sync + 'static,
    G: Fn(&E) -> bool + Send + Sync + 'static,
>(
    before: FailureClassifier<E>,
    predicate: F,
    on_error: FailureClassifier<E>,
    operation_predicate: G,
    on_operation: FailureClassifier<E>,
)
    requires
        call_ensures(FailureClassifier::<E>::fallback_on_error, (before, predicate), on_error),
        call_ensures(
            FailureClassifier::<E>::fallback_on_operation,
            (before, operation_predicate),
            on_operation,
        ),
    ensures
        becomes_rule(before, predicate, Rule::FallbackOn, on_error),
        becomes_operation_rule(before, operation_predicate, Rule::FallbackOn, on_operation),
{
    lemma_others_agree(before, on_error, Rule::FallbackOn);
    lemma_others_agree(before, on_operation, Rule::FallbackOn);
}

/// The calls that say what triggers no fallback set the skip-fallback rule, and no
/// other.
pub proof fn law_skip_fallback_calls_set_their_rule<
    E,
    F: Fn(Error<&E>) -> bool + Send + Sync + 'static,
    G: Fn(&E) -> bool + Send + Sync + 'static,
>(
    before: FailureClassifier<E>,
    predicate: F,
    on_error: FailureClassifier<E>,
    operation_predicate: G,
    on_operation: FailureClassifier<E>,
)
    requires
        call_ensures(FailureClassifier::<E>::skip_fallback_on_error, (before, predicate), on_error),
        call_ensures(
            FailureClassifier::<E>::skip_fallback_on_operation,
            (before, operation_predicate),
            on_operation,
        ),
    ensures
        becomes_rule(before, predicate, Rule::SkipFallbackOn, on_error),
        becomes_operation_rule(before, operation_predicate, Rule::SkipFallbackOn, on_operation),
{
    lemma_others_agree(before, on_error, Rule::SkipFallbackOn);
    lemma_others_agree(before, on_operation, Rule::SkipFallbackOn);
}

/// The calls that say what counts against the circuit set the circuit-failure rule,
/// and no other.
pub proof fn law_circuit_failure_calls_set_their_rule<
    E,
    F: Fn(Error<&E>) -> bool + Send + Sync + 'static,
    G: Fn(&E) -> bool + Send + Sync + 'static,
>(
    before: FailureClassifier<E>,
    predicate: F,
    on_error: FailureClassifier<E>,
    operation_predicate: G,
    on_operation: FailureClassifier<E>,
)
    requires
        call_ensures(
            FailureClassifier::<E>::circuit_failure_on_error,
            (before, predicate),
            on_error,
        ),
        call_ensures(
            FailureClassifier::<E>::circuit_failure_on_operation,
            (before, operation_predicate),
            on_operation,
        ),
    ensures
        becomes_rule(before, predicate, Rule::CircuitFailureOn, on_error),
        becomes_operation_rule(before, operation_predicate, Rule::CircuitFailureOn, on_operation),
{
    lemma_others_agree(before, on_error, Rule::CircuitFailureOn);
    lemma_others_agree(before, on_operation, Rule::CircuitFailureOn);
}

/// The calls that say what does not count against the circuit set the circuit-skip
/// rule, and no other.
pub proof fn law_circuit_skip_calls_set_their_rule<
    E,
    F: Fn(Error<&E>) -> bool + Send + Sync + 'static,
    G: Fn(&E) -> bool + Send + Sync + 'static,
>(
    before: FailureClassifier<E>,
    predicate: F,
    on_error: FailureClassifier<E>,
    operation_predicate: G,
    on_operation: FailureClassifier<E>,
)
    requires
        call_ensures(FailureClassifier::<E>::circuit_skip_on_error, (before, predicate), on_error),
        call_ensures(
            FailureClassifier::<E>::circuit_skip_on_operation,
            (before, operation_predicate),
            on_operation,
        ),
    ensures
        becomes_rule(before, predicate, Rule::CircuitSkipOn, on_error),
        becomes_operation_rule(before, operation_predicate, Rule::CircuitSkipOn, on_operation),
{
    lemma_others_agree(before, on_error, Rule::CircuitSkipOn);
    lemma_others_agree(before, on_operation, Rule::CircuitSkipOn);
}

/// A classifier that keeps all rules of another but one agrees with it on the others.
proof fn lemma_others_agree<E>(
    before: FailureClassifier<E>,
    after: FailureClassifier<E>,
    changed: Rule,
)
    requires
        after.keeps_other_rules(&before, changed),
    ensures
        forall|other: Rule| other != changed ==> #[trigger] agree_on(before, after, other),
{
    assert forall|other: Rule| other != changed implies #[trigger] agree_on(
        before,
        after,
        other,
    ) by {
        law_other_rules_are_kept(after, before, changed, other);
        assert(after.given(other) == before.given(other));
    }
}

/// A classifier has one text, whatever its rules are.
pub proof fn law_classifiers_have_one_text<E>(classifier: FailureClassifier<E>, text: String)
    requires
        call_ensures(FailureClassifier::<E>::debug_text, (&classifier,), text),
    ensures
        text@ == "FailureClassifier { .. }"@,
{
}

} // verus!
