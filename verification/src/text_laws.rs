//! What errors say.

use vstd::prelude::*;

use crate::attribute::{AttributeError, Facet, Problem};
use crate::error::Error;
use crate::expansion::ExpansionError;
use crate::method::MethodError;

verus! {

/// A policy error says what the policy did, and an operation error what it says of
/// itself.
pub proof fn law_what_errors_say<E, F: Fn(&E) -> String>(
    error: Error<E>,
    describe: F,
    text: String,
)
    requires
        call_ensures(Error::<E>::message, (&error, describe), text),
    ensures
        match error {
            Error::Operation(operation) => call_ensures(describe, (&operation,), text),
            Error::Timeout => text@ == "operation timed out"@,
            Error::CircuitOpen => text@ == "circuit breaker is open"@,
            Error::BulkheadRejected => text@ == "bulkhead rejected the operation"@,
        },
{
}

/// What is said of a method that no policies can be put around.
pub proof fn law_what_is_said_of_a_method(error: MethodError, text: String)
    requires
        call_ensures(MethodError::message, (&error,), text),
    ensures
        match error {
            MethodError::NotAsync => text@ == "fault tolerant methods must be async"@,
            MethodError::Generic => text@
                == "fault tolerant methods must not have generic parameters"@,
            MethodError::NotShared => text@
                == "fault tolerant methods must take &self as the first parameter"@,
            MethodError::NoReceiver => text@ == "fault tolerant methods must take &self"@,
            MethodError::NotSimple(_) => text@
                == "fault tolerant method arguments must use simple identifiers"@,
            MethodError::NoOutput => text@ == "fault tolerant methods must return Result<T, E>"@,
            MethodError::NotResult => text@ == "expected Result<T, E>"@,
        },
{
}

/// Every policy has an attribute of its own name.
pub proof fn law_names_of_attributes(facet: Facet, name: &'static str)
    requires
        call_ensures(Facet::name, (&facet,), name),
    ensures
        match facet {
            Facet::Retry => name@ == "retry"@,
            Facet::Timeout => name@ == "timeout"@,
            Facet::Fallback => name@ == "fallback"@,
            Facet::CircuitBreaker => name@ == "circuit_breaker"@,
            Facet::Bulkhead => name@ == "bulkhead"@,
        },
{
}

/// What is said of an attribute. Where it does not parse, the parser says it. The keys
/// are told for the attribute that it is, and a second one is told by its name.
pub proof fn law_what_is_said_of_an_attribute(error: AttributeError, text: Option<String>)
    requires
        call_ensures(AttributeError::message, (&error,), text),
    ensures
        text is None <==> error.error.problem is Malformed,
        text matches Some(text) ==> match error.error.problem {
            Problem::Malformed => false,
            Problem::UnknownKey => match error.facet {
                Facet::Retry => text@
                    == "expected `max_retries`, `delay_ms`, `jitter_ms`, or `max_duration_ms`"@,
                Facet::Timeout => text@ == "expected `ms`"@,
                Facet::Fallback => text@ == "expected `method`"@,
                Facet::CircuitBreaker => text@
                    == "expected `request_volume_threshold`, `failure_ratio`, or `delay_ms`"@,
                Facet::Bulkhead => text@ == "expected `max_concurrent`"@,
            },
            Problem::ExpectedInteger => text@ == "expected integer literal"@,
            Problem::IntegerTooLarge => text@ == "number too large to fit in target type"@,
            Problem::EmptyInteger => text@ == "cannot parse integer from empty string"@,
            Problem::InvalidDigit => text@ == "invalid digit found in string"@,
            Problem::ExpectedNumber => text@ == "expected float literal"@,
            Problem::Missing => match error.facet {
                Facet::Timeout => text@ == "`#[timeout]` requires `ms = ...`"@,
                Facet::Fallback => text@ == "`#[fallback]` requires `method = \"...\"`"@,
                Facet::Bulkhead => text@ == "`#[bulkhead]` requires `max_concurrent = ...`"@,
                Facet::Retry | Facet::CircuitBreaker => true,
            },
            Problem::Duplicate => match error.facet {
                Facet::Retry => text@ == "duplicate `#["@ + "retry"@ + "]` attribute"@,
                Facet::Timeout => text@ == "duplicate `#["@ + "timeout"@ + "]` attribute"@,
                Facet::Fallback => text@ == "duplicate `#["@ + "fallback"@ + "]` attribute"@,
                Facet::CircuitBreaker => text@ == "duplicate `#["@ + "circuit_breaker"@
                    + "]` attribute"@,
                Facet::Bulkhead => text@ == "duplicate `#["@ + "bulkhead"@ + "]` attribute"@,
            },
        },
{
}

/// What is said of a block: of the block itself, or what is said of the attribute or
/// the method that is wrong.
pub proof fn law_what_is_said_of_a_block(
    error: ExpansionError,
    text: Option<String>,
    cause: AttributeError,
    said_of_cause: Option<String>,
    method_error: MethodError,
    said_of_method: String,
)
    requires
        call_ensures(ExpansionError::message, (&error,), text),
        call_ensures(AttributeError::message, (&cause,), said_of_cause),
        call_ensures(MethodError::message, (&method_error,), said_of_method),
    ensures
        error is TraitImpl ==> (text matches Some(text) && text@
            == "#[fault_tolerant] must be used on an inherent impl block"@),
        error is NoAnnotatedMethod ==> (text matches Some(text) && text@
            == "#[fault_tolerant] requires at least one method annotated with a fault tolerance policy"@),
        error matches ExpansionError::Attribute { cause: told, .. } ==> (told == cause ==> {
            &&& text is None <==> said_of_cause is None
            &&& text is Some ==> text->0@ == said_of_cause->0@
        }),
        error matches ExpansionError::Method { error: told, .. } ==> (told == method_error ==> (
        text matches Some(text) && text@ == said_of_method@)),
{
}

} // verus!
