//! The error of a protected operation.

use vstd::prelude::*;

verus! {

/// Error returned by a protected operation or by a policy decision.
#[derive(Debug, Clone, PartialEq, Eq)]
pub enum Error<E> {
    /// The wrapped operation returned an application or service error.
    Operation(E),
    /// The operation did not finish before the configured timeout.
    Timeout,
    /// The circuit breaker rejected the call while the circuit was open.
    CircuitOpen,
    /// The bulkhead rejected the call because all concurrency permits were in use.
    BulkheadRejected,
}

impl<E> Error<E> {
    /// The same error over a reference to the operation error.
    pub open spec fn borrowed(&self) -> Error<&E> {
        match *self {
            Error::Operation(error) => Error::Operation(&error),
            Error::Timeout => Error::Timeout,
            Error::CircuitOpen => Error::CircuitOpen,
            Error::BulkheadRejected => Error::BulkheadRejected,
        }
    }

    /// The operation error, where there is one.
    pub open spec fn operation(self) -> Option<E> {
        match self {
            Error::Operation(error) => Some(error),
            _ => None,
        }
    }

    /// Borrows the operation error, so that a predicate can look at it.
    pub fn as_ref(&self) -> (borrowed: Error<&E>)
        ensures
            borrowed == self.borrowed(),
    {
        match self {
            Error::Operation(error) => Error::Operation(error),
            Error::Timeout => Error::Timeout,
            Error::CircuitOpen => Error::CircuitOpen,
            Error::BulkheadRejected => Error::BulkheadRejected,
        }
    }

    /// Returns the wrapped operation error, if this is [`Error::Operation`].
    pub fn into_operation(self) -> (operation: Option<E>)
        ensures
            operation == self.operation(),
    {
        match self {
            Error::Operation(error) => Some(error),
            Error::Timeout | Error::CircuitOpen | Error::BulkheadRejected => None,
        }
    }

    /// The underlying cause: the operation error, by reference.
    pub fn source(&self) -> (cause: Option<&E>)
        ensures
            cause == self.borrowed().operation(),
    {
        match self {
            Error::Operation(error) => Some(error),
            Error::Timeout | Error::CircuitOpen | Error::BulkheadRejected => None,
        }
    }

    /// The text of a policy error; an operation error has its own.
    pub open spec fn policy_text(self) -> Seq<char> {
        match self {
            Error::Operation(_) => Seq::empty(),
            Error::Timeout => "operation timed out"@,
            Error::CircuitOpen => "circuit breaker is open"@,
            Error::BulkheadRejected => "bulkhead rejected the operation"@,
        }
    }

    /// The error as text. `describe` gives the text of an operation error, and
    /// is called for nothing else.
    pub fn message(&self, describe: impl Fn(&E) -> String) -> (text: String)
        requires
            *self matches Error::Operation(error) ==> call_requires(describe, (&error,)),
        ensures
            match *self {
                Error::Operation(error) => call_ensures(describe, (&error,), text),
                _ => text@ == self.policy_text(),
            },
    {
        match self {
            Error::Operation(error) => describe(error),
            Error::Timeout => "operation timed out".to_owned(),
            Error::CircuitOpen => "circuit breaker is open".to_owned(),
            Error::BulkheadRejected => "bulkhead rejected the operation".to_owned(),
        }
    }
}

impl Error<()> {
    /// A policy error as an error of an operation of any kind.
    pub open spec fn as_policy_error<E>(self) -> Error<E> {
        match self {
            Error::Operation(_) => arbitrary(),
            Error::Timeout => Error::Timeout,
            Error::CircuitOpen => Error::CircuitOpen,
            Error::BulkheadRejected => Error::BulkheadRejected,
        }
    }

    /// Turns a policy error into an error of the protected operation. Policies
    /// never report an operation error of their own.
    pub fn map_operation_error<E>(self) -> (error: Error<E>)
        requires
            !(self is Operation),
        ensures
            error == self.as_policy_error::<E>(),
    {
        match self {
            Error::Operation(()) => {
                assert(false);
                Error::Timeout
            },
            Error::Timeout => Error::Timeout,
            Error::CircuitOpen => Error::CircuitOpen,
            Error::BulkheadRejected => Error::BulkheadRejected,
        }
    }
}

} // verus!
