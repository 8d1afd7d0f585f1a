//! Policy sets and their builder.

use vstd::prelude::*;

use crate::bulkhead::Bulkhead;
use crate::circuit::{CircuitBreaker, SharedBreaker};
use crate::retry::{optional_nanos, RetryPolicy, RetryPolicyView};
use crate::time::Duration;

verus! {

/// What a policy set holds.
#[verifier::ext_equal]
pub struct PolicyView<C> {
    /// The retry configuration.
    pub retry: Option<RetryPolicyView>,
    /// The time limit of one attempt, in nanoseconds.
    pub timeout: Option<nat>,
    /// The handle of the circuit breaker.
    pub circuit_breaker: Option<C>,
    /// The bulkhead.
    pub bulkhead: Option<Bulkhead>,
}

/// The retry configuration behind an optional retry policy.
pub open spec fn optional_retry(retry: Option<RetryPolicy>) -> Option<RetryPolicyView> {
    match retry {
        Some(retry) => Some(retry@),
        None => None,
    }
}

/// A policy set without any policy.
pub open spec fn no_policies<C>() -> PolicyView<C> {
    PolicyView { retry: None, timeout: None, circuit_breaker: None, bulkhead: None }
}

/// Builder for a [`FaultTolerance`] policy set.
///
/// `C` is the handle through which calls share a circuit breaker, such as a
/// counted reference to a breaker behind a lock.
#[derive(Debug)]
pub struct FaultToleranceBuilder<C = CircuitBreaker> {
    retry: Option<RetryPolicy>,
    timeout: Option<Duration>,
    circuit_breaker: Option<C>,
    bulkhead: Option<Bulkhead>,
}

impl<C> View for FaultToleranceBuilder<C> {
    type V = PolicyView<C>;

    closed spec fn view(&self) -> PolicyView<C> {
        PolicyView {
            retry: optional_retry(self.retry),
            timeout: optional_nanos(self.timeout),
            circuit_breaker: self.circuit_breaker,
            bulkhead: self.bulkhead,
        }
    }
}

impl<C> Default for FaultToleranceBuilder<C> {
    fn default() -> (builder: Self)
        ensures
            builder@ == no_policies::<C>(),
    {
        FaultToleranceBuilder { retry: None, timeout: None, circuit_breaker: None, bulkhead: None }
    }
}

/// Whether `copy` is a clone of an optional handle.
pub open spec fn cloned_handle<C: Clone>(handle: Option<C>, copy: Option<C>) -> bool {
    match (handle, copy) {
        (Some(handle), Some(copy)) => cloned(handle, copy),
        (None, None) => true,
        _ => false,
    }
}

/// Whether a clone of a handle is the handle once more, as a clone of a counted
/// reference is.
pub open spec fn clones_are_equal<C: Clone>() -> bool {
    forall|handle: C, copy: C| #[trigger] cloned(handle, copy) ==> copy == handle
}

/// Clones an optional handle.
fn clone_handle<C: Clone>(handle: &Option<C>) -> (copy: Option<C>)
    ensures
        cloned_handle(*handle, copy),
        clones_are_equal::<C>() ==> copy == *handle,
{
    match handle {
        Some(handle) => {
            let copy = handle.clone();
            assert(cloned(*handle, copy));
            Some(copy)
        },
        None => None,
    }
}

impl<C: Clone> Clone for FaultToleranceBuilder<C> {
    /// The same policies once more: the bulkhead is shared, and so is whatever
    /// clones of the circuit breaker's handle share.
    fn clone(&self) -> (builder: Self)
        ensures
            cloned_handle(self@.circuit_breaker, builder@.circuit_breaker),
            builder@ == (PolicyView { circuit_breaker: builder@.circuit_breaker, ..self@ }),
            clones_are_equal::<C>() ==> builder@ == self@,
    {
        FaultToleranceBuilder {
            retry: self.retry,
            timeout: self.timeout,
            circuit_breaker: clone_handle(&self.circuit_breaker),
            bulkhead: match &self.bulkhead {
                Some(bulkhead) => Some(bulkhead.clone()),
                None => None,
            },
        }
    }
}

impl<C> FaultToleranceBuilder<C> {
    /// Enables retry handling for protected operations.
    pub fn retry(self, retry: RetryPolicy) -> (builder: Self)
        ensures
            builder@ == (PolicyView { retry: Some(retry@), ..self@ }),
    {
        FaultToleranceBuilder { retry: Some(retry), ..self }
    }

    /// Enables timeout handling for each protected attempt.
    pub fn timeout(self, timeout: Duration) -> (builder: Self)
        ensures
            builder@ == (PolicyView { timeout: Some(timeout@), ..self@ }),
    {
        FaultToleranceBuilder { timeout: Some(timeout), ..self }
    }

    /// Uses the circuit breaker behind a handle.
    pub fn circuit_breaker(self, circuit_breaker: C) -> (builder: Self)
        ensures
            builder@ == (PolicyView { circuit_breaker: Some(circuit_breaker), ..self@ }),
    {
        FaultToleranceBuilder { circuit_breaker: Some(circuit_breaker), ..self }
    }

    /// Uses a semaphore-style bulkhead.
    pub fn bulkhead(self, bulkhead: Bulkhead) -> (builder: Self)
        ensures
            builder@ == (PolicyView { bulkhead: Some(bulkhead), ..self@ }),
    {
        FaultToleranceBuilder { bulkhead: Some(bulkhead), ..self }
    }

    /// Finishes the policy set.
    pub fn build(self) -> (policy: FaultTolerance<C>)
        ensures
            policy@ == self@,
    {
        FaultTolerance {
            retry: self.retry,
            timeout: self.timeout,
            circuit_breaker: self.circuit_breaker,
            bulkhead: self.bulkhead,
        }
    }
}

/// Composable fault-tolerance policy set.
///
/// Circuit breaker and bulkhead checks happen before an attempt, the timeout
/// limits the attempt, and retry repeats the whole attempt. `C` is the handle
/// through which calls share a circuit breaker.
#[derive(Debug)]
pub struct FaultTolerance<C = CircuitBreaker> {
    retry: Option<RetryPolicy>,
    timeout: Option<Duration>,
    circuit_breaker: Option<C>,
    bulkhead: Option<Bulkhead>,
}

impl<C> View for FaultTolerance<C> {
    type V = PolicyView<C>;

    closed spec fn view(&self) -> PolicyView<C> {
        PolicyView {
            retry: optional_retry(self.retry),
            timeout: optional_nanos(self.timeout),
            circuit_breaker: self.circuit_breaker,
            bulkhead: self.bulkhead,
        }
    }
}

impl<C> Default for FaultTolerance<C> {
    fn default() -> (policy: Self)
        ensures
            policy@ == no_policies::<C>(),
    {
        FaultTolerance { retry: None, timeout: None, circuit_breaker: None, bulkhead: None }
    }
}

impl<C: Clone> Clone for FaultTolerance<C> {
    /// The same policies once more: the bulkhead is shared, and so is whatever
    /// clones of the circuit breaker's handle share.
    fn clone(&self) -> (policy: Self)
        ensures
            cloned_handle(self@.circuit_breaker, policy@.circuit_breaker),
            policy@ == (PolicyView { circuit_breaker: policy@.circuit_breaker, ..self@ }),
            clones_are_equal::<C>() ==> policy@ == self@,
    {
        FaultTolerance {
            retry: self.retry,
            timeout: self.timeout,
            circuit_breaker: clone_handle(&self.circuit_breaker),
            bulkhead: match &self.bulkhead {
                Some(bulkhead) => Some(bulkhead.clone()),
                None => None,
            },
        }
    }
}

impl<C> FaultTolerance<C> {
    /// Starts building a policy set.
    pub fn builder() -> (builder: FaultToleranceBuilder<C>)
        ensures
            builder@ == no_policies::<C>(),
    {
        FaultToleranceBuilder::default()
    }

    /// The retry policy, if there is one.
    pub fn retry(&self) -> (retry: Option<RetryPolicy>)
        ensures
            optional_retry(retry) == self@.retry,
    {
        self.retry
    }

    /// The time limit of one attempt, if there is one.
    pub fn timeout(&self) -> (timeout: Option<Duration>)
        ensures
            optional_nanos(timeout) == self@.timeout,
    {
        self.timeout
    }

    /// The handle of the circuit breaker, if there is one.
    pub fn circuit_breaker(&self) -> (circuit_breaker: Option<&C>)
        ensures
            circuit_breaker == match self@.circuit_breaker {
                Some(handle) => Some(&handle),
                None => None,
            },
    {
        self.circuit_breaker.as_ref()
    }

    /// The bulkhead, if there is one.
    pub fn bulkhead(&self) -> (bulkhead: Option<&Bulkhead>)
        ensures
            bulkhead == match self@.bulkhead {
                Some(bulkhead) => Some(&bulkhead),
                None => None,
            },
    {
        self.bulkhead.as_ref()
    }
}

/// Clones of a reference to a shared circuit breaker are that reference once more,
/// so clones of a policy set over such references are equal.
pub proof fn law_shared_breakers_are_shared<L>()
    ensures
        clones_are_equal::<SharedBreaker<L>>(),
{
}

/// Clones of a policy set share one circuit breaker and one bulkhead: where
/// clones of the handle are equal, whatever is behind the handle of one is behind
/// that of the other, at every moment.
pub proof fn law_clones_share_their_parts<C: Clone, B>(
    policy: FaultTolerance<C>,
    copy: FaultTolerance<C>,
    behind: spec_fn(C) -> B,
)
    requires
        call_ensures(<FaultTolerance<C> as Clone>::clone, (&policy,), copy),
        clones_are_equal::<C>(),
    ensures
        copy@.bulkhead == policy@.bulkhead,
        copy@.circuit_breaker is Some <==> policy@.circuit_breaker is Some,
        policy@.circuit_breaker matches Some(handle) ==> behind(copy@.circuit_breaker->0)
            == behind(handle),
{
}

} // verus!
