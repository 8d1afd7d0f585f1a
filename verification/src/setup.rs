//! The builder calls that policy attributes stand for, and the policies that
//! those calls build.

use vstd::prelude::*;

use crate::attribute::{BulkheadAttr, CircuitBreakerAttr, PolicyAttrs, RetryAttr};
use crate::bulkhead::{permits_in_all, Bulkhead};
use crate::circuit::{default_config, fresh, CircuitBreaker, CircuitBreakerConfig, ConfigView};
use crate::policy::{clones_are_equal, no_policies, FaultTolerance, PolicyView};
use crate::ratio::{clamped, FailureRatio};
use crate::retry::{default_retry, RetryPolicy, RetryPolicyView};
use crate::time::{Duration, NANOS_PER_MILLI};

verus! {

/// A call on a retry policy. Times are in milliseconds.
#[derive(Debug, Clone, Copy, PartialEq, Eq)]
pub enum RetryCall {
    /// `max_retries`
    MaxRetries(u64),
    /// `delay`
    Delay(u64),
    /// `jitter`
    Jitter(u64),
    /// `max_duration`
    MaxDuration(u64),
}

/// A call on a circuit breaker configuration. The delay is in milliseconds.
#[derive(Debug, Clone, Copy, PartialEq, Eq)]
pub enum ConfigCall {
    /// `request_volume_threshold`
    RequestVolumeThreshold(u64),
    /// `failure_ratio`, by the bit pattern of the ratio
    FailureRatio(u64),
    /// `delay`
    Delay(u64),
}

/// A call on the builder of a policy set.
#[derive(Debug, Clone, Copy, PartialEq, Eq)]
pub enum BuilderCall {
    /// `timeout`, in milliseconds
    Timeout(u64),
    /// `retry`
    Retry(RetryAttr),
    /// `circuit_breaker`, with the breaker that all calls of the method share
    CircuitBreaker(CircuitBreakerAttr),
    /// `bulkhead`, with the bulkhead that all calls of the method share, by its
    /// limit
    Bulkhead(u64),
}

/// Milliseconds as nanoseconds.
pub open spec fn millis(ms: u64) -> nat {
    (ms * NANOS_PER_MILLI) as nat
}

/// The calls that an optional argument stands for: one, or none.
pub open spec fn call_for<V, A>(value: Option<V>, call: spec_fn(V) -> A) -> Seq<A> {
    match value {
        Some(value) => seq![call(value)],
        None => Seq::empty(),
    }
}

impl RetryCall {
    /// The policy after this call.
    pub open spec fn applied(self, policy: RetryPolicyView) -> RetryPolicyView {
        match self {
            RetryCall::MaxRetries(n) => RetryPolicyView {
                max_retries: (n as usize) as nat,
                ..policy
            },
            RetryCall::Delay(ms) => RetryPolicyView { delay: millis(ms), ..policy },
            RetryCall::Jitter(ms) => RetryPolicyView { jitter: millis(ms), ..policy },
            RetryCall::MaxDuration(ms) => RetryPolicyView {
                max_duration: Some(millis(ms)),
                ..policy
            },
        }
    }
}

/// The policy after a sequence of calls.
pub open spec fn retry_after(policy: RetryPolicyView, calls: Seq<RetryCall>) -> RetryPolicyView {
    calls.fold_left(policy, |policy: RetryPolicyView, call: RetryCall| call.applied(policy))
}

impl RetryAttr {
    /// The calls that the attribute stands for.
    pub open spec fn call_list(self) -> Seq<RetryCall> {
        call_for(self.max_retries, |n: u64| RetryCall::MaxRetries(n)) + call_for(
            self.delay_ms,
            |ms: u64| RetryCall::Delay(ms),
        ) + call_for(self.jitter_ms, |ms: u64| RetryCall::Jitter(ms)) + call_for(
            self.max_duration_ms,
            |ms: u64| RetryCall::MaxDuration(ms),
        )
    }

    /// The policy that the attribute describes: what an argument does not say
    /// stays at its default.
    pub open spec fn described(self) -> RetryPolicyView {
        RetryPolicyView {
            max_retries: match self.max_retries {
                Some(n) => (n as usize) as nat,
                None => default_retry().max_retries,
            },
            delay: match self.delay_ms {
                Some(ms) => millis(ms),
                None => default_retry().delay,
            },
            jitter: match self.jitter_ms {
                Some(ms) => millis(ms),
                None => default_retry().jitter,
            },
            max_duration: match self.max_duration_ms {
                Some(ms) => Some(millis(ms)),
                None => default_retry().max_duration,
            },
        }
    }

    /// The calls on a new retry policy that the attribute stands for, in order.
    pub fn calls(&self) -> (calls: Vec<RetryCall>)
        ensures
            calls@ == self.call_list(),
    {
        let mut calls: Vec<RetryCall> = Vec::new();
        if let Some(max_retries) = self.max_retries {
            calls.push(RetryCall::MaxRetries(max_retries));
        }
        if let Some(delay_ms) = self.delay_ms {
            calls.push(RetryCall::Delay(delay_ms));
        }
        if let Some(jitter_ms) = self.jitter_ms {
            calls.push(RetryCall::Jitter(jitter_ms));
        }
        if let Some(max_duration_ms) = self.max_duration_ms {
            calls.push(RetryCall::MaxDuration(max_duration_ms));
        }
        assert(calls@ =~= self.call_list());
        calls
    }

    /// The retry policy that the attribute describes.
    pub fn policy(&self) -> (policy: RetryPolicy)
        ensures
            policy@ == self.described(),
    {
        let mut policy = RetryPolicy::new();
        if let Some(max_retries) = self.max_retries {
            policy = policy.max_retries(max_retries as usize);
        }
        if let Some(delay_ms) = self.delay_ms {
            policy = policy.delay(Duration::from_millis(delay_ms));
        }
        if let Some(jitter_ms) = self.jitter_ms {
            policy = policy.jitter(Duration::from_millis(jitter_ms));
        }
        if let Some(max_duration_ms) = self.max_duration_ms {
            policy = policy.max_duration(Duration::from_millis(max_duration_ms));
        }
        policy
    }
}

/// The calls that a retry attribute stands for build the policy that it
/// describes.
pub proof fn law_retry_calls_build_the_policy(retry: RetryAttr)
    ensures
        retry_after(default_retry(), retry.call_list()) == retry.described(),
{
    let apply = |policy: RetryPolicyView, call: RetryCall| call.applied(policy);
    let first = call_for(retry.max_retries, |n: u64| RetryCall::MaxRetries(n));
    let second = call_for(retry.delay_ms, |ms: u64| RetryCall::Delay(ms));
    let third = call_for(retry.jitter_ms, |ms: u64| RetryCall::Jitter(ms));
    let fourth = call_for(retry.max_duration_ms, |ms: u64| RetryCall::MaxDuration(ms));
    lemma_fold_parts(default_retry(), first, second, apply);
    lemma_fold_parts(default_retry(), first + second, third, apply);
    lemma_fold_parts(default_retry(), first + second + third, fourth, apply);
    lemma_fold_call(default_retry(), first, apply);
    lemma_fold_call(first.fold_left(default_retry(), apply), second, apply);
    lemma_fold_call((first + second).fold_left(default_retry(), apply), third, apply);
    lemma_fold_call((first + second + third).fold_left(default_retry(), apply), fourth, apply);
}

impl ConfigCall {
    /// The configuration after this call.
    pub open spec fn applied(self, config: ConfigView) -> ConfigView {
        match self {
            ConfigCall::RequestVolumeThreshold(n) => ConfigView {
                request_volume_threshold: at_least_one(n as usize),
                ..config
            },
            ConfigCall::FailureRatio(bits) => ConfigView {
                failure_ratio: clamped(bits),
                ..config
            },
            ConfigCall::Delay(ms) => ConfigView { delay: millis(ms), ..config },
        }
    }
}

/// A count, with zero treated as one.
pub open spec fn at_least_one(count: usize) -> nat {
    if count == 0 {
        1
    } else {
        count as nat
    }
}

/// The configuration after a sequence of calls.
pub open spec fn config_after(config: ConfigView, calls: Seq<ConfigCall>) -> ConfigView {
    calls.fold_left(config, |config: ConfigView, call: ConfigCall| call.applied(config))
}

impl CircuitBreakerAttr {
    /// The calls that the attribute stands for.
    pub open spec fn call_list(self) -> Seq<ConfigCall> {
        call_for(
            self.request_volume_threshold,
            |n: u64| ConfigCall::RequestVolumeThreshold(n),
        ) + call_for(self.failure_ratio, |bits: u64| ConfigCall::FailureRatio(bits)) + call_for(
            self.delay_ms,
            |ms: u64| ConfigCall::Delay(ms),
        )
    }

    /// The configuration that the attribute describes: what an argument does not
    /// say stays at its default.
    pub open spec fn described(self) -> ConfigView {
        ConfigView {
            request_volume_threshold: match self.request_volume_threshold {
                Some(n) => at_least_one(n as usize),
                None => default_config().request_volume_threshold,
            },
            failure_ratio: match self.failure_ratio {
                Some(bits) => clamped(bits),
                None => default_config().failure_ratio,
            },
            delay: match self.delay_ms {
                Some(ms) => millis(ms),
                None => default_config().delay,
            },
        }
    }

    /// The calls on a new configuration that the attribute stands for, in order.
    pub fn calls(&self) -> (calls: Vec<ConfigCall>)
        ensures
            calls@ == self.call_list(),
    {
        let mut calls: Vec<ConfigCall> = Vec::new();
        if let Some(threshold) = self.request_volume_threshold {
            calls.push(ConfigCall::RequestVolumeThreshold(threshold));
        }
        if let Some(bits) = self.failure_ratio {
            calls.push(ConfigCall::FailureRatio(bits));
        }
        if let Some(delay_ms) = self.delay_ms {
            calls.push(ConfigCall::Delay(delay_ms));
        }
        assert(calls@ =~= self.call_list());
        calls
    }

    /// The circuit breaker configuration that the attribute describes.
    pub fn config(&self) -> (config: CircuitBreakerConfig)
        ensures
            config@ == self.described(),
    {
        let mut config = CircuitBreakerConfig::new();
        if let Some(threshold) = self.request_volume_threshold {
            config = config.request_volume_threshold(threshold as usize);
        }
        if let Some(bits) = self.failure_ratio {
            config = config.failure_ratio(FailureRatio::from_bits(bits));
        }
        if let Some(delay_ms) = self.delay_ms {
            config = config.delay(Duration::from_millis(delay_ms));
        }
        config
    }
}

/// The calls that a circuit breaker attribute stands for build the configuration
/// that it describes.
pub proof fn law_config_calls_build_the_config(circuit_breaker: CircuitBreakerAttr)
    ensures
        config_after(default_config(), circuit_breaker.call_list()) == circuit_breaker.described(),
{
    let apply = |config: ConfigView, call: ConfigCall| call.applied(config);
    let first = call_for(
        circuit_breaker.request_volume_threshold,
        |n: u64| ConfigCall::RequestVolumeThreshold(n),
    );
    let second = call_for(
        circuit_breaker.failure_ratio,
        |bits: u64| ConfigCall::FailureRatio(bits),
    );
    let third = call_for(circuit_breaker.delay_ms, |ms: u64| ConfigCall::Delay(ms));
    lemma_fold_parts(default_config(), first, second, apply);
    lemma_fold_parts(default_config(), first + second, third, apply);
    lemma_fold_call(default_config(), first, apply);
    lemma_fold_call(first.fold_left(default_config(), apply), second, apply);
    lemma_fold_call((first + second).fold_left(default_config(), apply), third, apply);
}

impl BuilderCall {
    /// The policy set after this call, where `circuit_breaker` and `bulkhead` give
    /// the parts that the calls of the method share: the handle of a breaker with
    /// a configuration, and a bulkhead with a number of permits.
    pub open spec fn applied<C>(
        self,
        policy: PolicyView<C>,
        circuit_breaker: spec_fn(ConfigView) -> C,
        bulkhead: spec_fn(nat) -> Bulkhead,
    ) -> PolicyView<C> {
        match self {
            BuilderCall::Timeout(ms) => PolicyView { timeout: Some(millis(ms)), ..policy },
            BuilderCall::Retry(retry) => PolicyView { retry: Some(retry.described()), ..policy },
            BuilderCall::CircuitBreaker(attribute) => PolicyView {
                circuit_breaker: Some(circuit_breaker(attribute.described())),
                ..policy
            },
            BuilderCall::Bulkhead(limit) => PolicyView {
                bulkhead: Some(bulkhead(at_least_one(limit as usize))),
                ..policy
            },
        }
    }
}

/// The policy set after a sequence of calls.
pub open spec fn policy_after<C>(
    policy: PolicyView<C>,
    calls: Seq<BuilderCall>,
    circuit_breaker: spec_fn(ConfigView) -> C,
    bulkhead: spec_fn(nat) -> Bulkhead,
) -> PolicyView<C> {
    calls.fold_left(
        policy,
        |policy: PolicyView<C>, call: BuilderCall| call.applied(policy, circuit_breaker, bulkhead),
    )
}

impl PolicyAttrs {
    /// The calls that the attributes stand for.
    pub open spec fn call_list(self) -> Seq<BuilderCall> {
        call_for(self.timeout_ms, |ms: u64| BuilderCall::Timeout(ms)) + call_for(
            self.retry,
            |retry: RetryAttr| BuilderCall::Retry(retry),
        ) + call_for(
            self.circuit_breaker,
            |circuit_breaker: CircuitBreakerAttr| BuilderCall::CircuitBreaker(circuit_breaker),
        ) + call_for(
            self.bulkhead,
            |bulkhead: BulkheadAttr| BuilderCall::Bulkhead(bulkhead.max_concurrent),
        )
    }

    /// The retry configuration that the attributes describe.
    pub open spec fn described_retry(self) -> Option<RetryPolicyView> {
        match self.retry {
            Some(retry) => Some(retry.described()),
            None => None,
        }
    }

    /// The time limit of one attempt that the attributes describe.
    pub open spec fn described_timeout(self) -> Option<nat> {
        match self.timeout_ms {
            Some(ms) => Some(millis(ms)),
            None => None,
        }
    }

    /// The policy set that the attributes describe, with the shared parts that
    /// `circuit_breaker` and `bulkhead` give. A fallback is no part of it.
    pub open spec fn described<C>(
        self,
        circuit_breaker: spec_fn(ConfigView) -> C,
        bulkhead: spec_fn(nat) -> Bulkhead,
    ) -> PolicyView<C> {
        PolicyView {
            retry: self.described_retry(),
            timeout: self.described_timeout(),
            circuit_breaker: match self.circuit_breaker {
                Some(attribute) => Some(circuit_breaker(attribute.described())),
                None => None,
            },
            bulkhead: match self.bulkhead {
                Some(attribute) => Some(
                    bulkhead(at_least_one(attribute.max_concurrent as usize)),
                ),
                None => None,
            },
        }
    }

    /// The calls on a new builder that the attributes stand for, in order.
    pub fn builder_calls(&self) -> (calls: Vec<BuilderCall>)
        ensures
            calls@ == self.call_list(),
    {
        let mut calls: Vec<BuilderCall> = Vec::new();
        if let Some(timeout_ms) = self.timeout_ms {
            calls.push(BuilderCall::Timeout(timeout_ms));
        }
        if let Some(retry) = self.retry {
            calls.push(BuilderCall::Retry(retry));
        }
        if let Some(circuit_breaker) = self.circuit_breaker {
            calls.push(BuilderCall::CircuitBreaker(circuit_breaker));
        }
        if let Some(bulkhead) = self.bulkhead {
            calls.push(BuilderCall::Bulkhead(bulkhead.max_concurrent));
        }
        assert(calls@ =~= self.call_list());
        calls
    }
}

/// The calls that the attributes of a method stand for build the policy set that
/// they describe: each policy that has an attribute, with what is written there,
/// and no other.
pub proof fn law_builder_calls_build_the_policies<C>(
    attributes: PolicyAttrs,
    circuit_breaker: spec_fn(ConfigView) -> C,
    bulkhead: spec_fn(nat) -> Bulkhead,
)
    ensures
        policy_after(no_policies::<C>(), attributes.call_list(), circuit_breaker, bulkhead)
            == attributes.described(circuit_breaker, bulkhead),
{
    let start = no_policies::<C>();
    let apply = |policy: PolicyView<C>, call: BuilderCall|
        call.applied(policy, circuit_breaker, bulkhead);
    let first = call_for(attributes.timeout_ms, |ms: u64| BuilderCall::Timeout(ms));
    let second = call_for(attributes.retry, |retry: RetryAttr| BuilderCall::Retry(retry));
    let third = call_for(
        attributes.circuit_breaker,
        |circuit_breaker: CircuitBreakerAttr| BuilderCall::CircuitBreaker(circuit_breaker),
    );
    let fourth = call_for(
        attributes.bulkhead,
        |bulkhead: BulkheadAttr| BuilderCall::Bulkhead(bulkhead.max_concurrent),
    );
    lemma_fold_parts(start, first, second, apply);
    lemma_fold_parts(start, first + second, third, apply);
    lemma_fold_parts(start, first + second + third, fourth, apply);
    lemma_fold_call(start, first, apply);
    lemma_fold_call(first.fold_left(start, apply), second, apply);
    lemma_fold_call((first + second).fold_left(start, apply), third, apply);
    lemma_fold_call((first + second + third).fold_left(start, apply), fourth, apply);
}

/// What all calls of one method share. A part is made when the first call needs
/// it.
#[derive(Debug)]
pub struct SharedParts<C = CircuitBreaker> {
    /// The handle of the circuit breaker.
    pub circuit_breaker: Option<C>,
    /// The bulkhead.
    pub bulkhead: Option<Bulkhead>,
}

/// Whether `share` can give `handle` for a new breaker with a configuration.
pub open spec fn can_share<C, F: Fn(CircuitBreaker) -> C>(
    share: F,
    config: ConfigView,
    handle: C,
) -> bool {
    exists|breaker: CircuitBreaker|
        breaker@ == fresh(config) && #[trigger] call_ensures(share, (breaker,), handle)
}

impl<C> SharedParts<C> {
    /// The parts of a method that was not called yet: none.
    pub fn new() -> (parts: Self)
        ensures
            parts.circuit_breaker is None,
            parts.bulkhead is None,
    {
        SharedParts { circuit_breaker: None, bulkhead: None }
    }

    /// Whether the parts that there are were made as the attributes of the method
    /// describe them.
    pub open spec fn made_for<F: Fn(CircuitBreaker) -> C>(
        self,
        attributes: PolicyAttrs,
        share: F,
    ) -> bool {
        &&& self.circuit_breaker matches Some(handle) ==> {
            &&& attributes.circuit_breaker matches Some(attribute)
            &&& can_share(share, attribute.described(), handle)
        }
        &&& self.bulkhead matches Some(bulkhead) ==> {
            &&& attributes.bulkhead matches Some(attribute)
            &&& permits_in_all(bulkhead.semaphore()) == at_least_one(
                attribute.max_concurrent as usize,
            )
        }
    }
}

impl PolicyAttrs {
    /// Whether the attributes can be evaluated to `policy`, which takes the shared
    /// parts from `before` to `after`. A part that is there stays and is used; one
    /// that is needed and not there is made as described.
    pub open spec fn evaluates<C: Clone, F: Fn(CircuitBreaker) -> C>(
        self,
        share: F,
        before: SharedParts<C>,
        after: SharedParts<C>,
        policy: PolicyView<C>,
    ) -> bool {
        &&& policy.retry == self.described_retry()
        &&& policy.timeout == self.described_timeout()
        &&& match self.circuit_breaker {
            Some(attribute) => {
                &&& after.circuit_breaker matches Some(handle)
                &&& match before.circuit_breaker {
                    Some(kept) => handle == kept,
                    None => can_share(share, attribute.described(), handle),
                }
                &&& policy.circuit_breaker matches Some(copy)
                &&& cloned(handle, copy)
            },
            None => after.circuit_breaker == before.circuit_breaker
                && policy.circuit_breaker is None,
        }
        &&& match self.bulkhead {
            Some(attribute) => {
                &&& after.bulkhead matches Some(bulkhead)
                &&& match before.bulkhead {
                    Some(kept) => bulkhead == kept,
                    None => permits_in_all(bulkhead.semaphore()) == at_least_one(
                        attribute.max_concurrent as usize,
                    ),
                }
                &&& policy.bulkhead == Some(bulkhead)
            },
            None => after.bulkhead == before.bulkhead && policy.bulkhead is None,
        }
    }

    /// Builds the policies that the attributes describe, for one call of their
    /// method. `share` puts a new circuit breaker behind a handle.
    pub fn policy<C: Clone, F: Fn(CircuitBreaker) -> C>(
        &self,
        parts: &mut SharedParts<C>,
        share: F,
    ) -> (policy: FaultTolerance<C>)
        requires
            forall|breaker: CircuitBreaker| call_requires(share, (breaker,)),
            old(parts).bulkhead is None ==> (self.bulkhead matches Some(attribute)
                ==> attribute.max_concurrent as usize <= usize::MAX / 8),
        ensures
            self.evaluates(share, *old(parts), *final(parts), policy@),
    {
        let mut builder = FaultTolerance::builder();
        if let Some(timeout_ms) = self.timeout_ms {
            builder = builder.timeout(Duration::from_millis(timeout_ms));
        }
        if let Some(retry) = self.retry {
            builder = builder.retry(retry.policy());
        }
        if let Some(circuit_breaker) = self.circuit_breaker {
            let handle = match parts.circuit_breaker.take() {
                Some(handle) => handle,
                None => {
                    let breaker = CircuitBreaker::new(circuit_breaker.config());
                    let handle = share(breaker);
                    assert(can_share(share, circuit_breaker.described(), handle));
                    handle
                },
            };
            builder = builder.circuit_breaker(handle.clone());
            parts.circuit_breaker = Some(handle);
        }
        if let Some(bulkhead) = self.bulkhead {
            let shared = match parts.bulkhead.take() {
                Some(shared) => shared,
                None => Bulkhead::new(bulkhead.max_concurrent as usize),
            };
            builder = builder.bulkhead(shared.clone());
            parts.bulkhead = Some(shared);
        }
        builder.build()
    }
}

/// However often the attributes of a method are evaluated, the shared parts are
/// those that the attributes describe: the circuit breaker started with the
/// configuration that is written, and the bulkhead has the permits that are
/// written.
pub proof fn law_parts_are_made_as_described<C: Clone, F: Fn(CircuitBreaker) -> C>(
    attributes: PolicyAttrs,
    share: F,
    before: SharedParts<C>,
    after: SharedParts<C>,
    policy: PolicyView<C>,
)
    requires
        before.made_for(attributes, share),
        attributes.evaluates(share, before, after, policy),
    ensures
        after.made_for(attributes, share),
        policy.circuit_breaker is Some <==> attributes.circuit_breaker is Some,
        policy.circuit_breaker matches Some(copy) ==> exists|handle: C|
            can_share(share, attributes.circuit_breaker->0.described(), handle) && #[trigger] cloned(
                handle,
                copy,
            ),
        policy.bulkhead is Some <==> attributes.bulkhead is Some,
        policy.bulkhead matches Some(bulkhead) ==> permits_in_all(bulkhead.semaphore())
            == at_least_one(attributes.bulkhead->0.max_concurrent as usize),
{
    if attributes.circuit_breaker is Some {
        assert(cloned(after.circuit_breaker->0, policy.circuit_breaker->0));
    }
}

/// All evaluations of the attributes of one method share one circuit breaker and
/// one bulkhead: the parts that the first evaluation leaves stay, and every later
/// policy set uses them.
pub proof fn law_evaluations_share_their_parts<C: Clone, F: Fn(CircuitBreaker) -> C>(
    attributes: PolicyAttrs,
    share: F,
    before: SharedParts<C>,
    between: SharedParts<C>,
    after: SharedParts<C>,
    first: PolicyView<C>,
    second: PolicyView<C>,
)
    requires
        attributes.evaluates(share, before, between, first),
        attributes.evaluates(share, between, after, second),
    ensures
        after == between,
        second.bulkhead == first.bulkhead,
        attributes.circuit_breaker is Some ==> exists|handle: C|
            #![trigger cloned(handle, first.circuit_breaker->0)]
            cloned(handle, first.circuit_breaker->0) && cloned(
                handle,
                second.circuit_breaker->0,
            ),
        clones_are_equal::<C>() ==> second == first,
{
    if attributes.circuit_breaker is Some {
        let handle = between.circuit_breaker->0;
        assert(cloned(handle, first.circuit_breaker->0));
        assert(cloned(handle, second.circuit_breaker->0));
    }
}

/// One evaluation of the attributes of a method: which method of its block, and
/// the policies that came out.
pub struct Evaluation<C> {
    /// The method by its position.
    pub item: int,
    /// The policies.
    pub policy: PolicyView<C>,
}

/// Whether evaluations can come in this order in a block whose methods have the
/// given attributes. `states` holds the shared parts of every method before the
/// first evaluation and after each: every method starts from none, and an
/// evaluation works on the parts of its own method.
pub open spec fn is_history<C: Clone, F: Fn(CircuitBreaker) -> C>(
    attributes: Seq<PolicyAttrs>,
    share: F,
    evaluations: Seq<Evaluation<C>>,
    states: Seq<Seq<SharedParts<C>>>,
) -> bool {
    &&& states.len() == evaluations.len() + 1
    &&& states[0].len() == attributes.len()
    &&& forall|item: int|
        0 <= item < attributes.len() ==> (#[trigger] states[0][item]).circuit_breaker is None
            && states[0][item].bulkhead is None
    &&& forall|k: int|
        0 <= k < evaluations.len() ==> ({
            let item = (#[trigger] evaluations[k]).item;
            &&& 0 <= item < attributes.len()
            &&& states[k + 1] == states[k].update(item, states[k + 1][item])
            &&& attributes[item].evaluates(
                share,
                states[k][item],
                states[k + 1][item],
                evaluations[k].policy,
            )
        })
}

/// Different methods share no circuit breaker and no bulkhead. An evaluation for
/// one method leaves the parts of every other method as they were, and a method
/// that was never evaluated has none. Every part of a method was made by an
/// evaluation for that method, as its attributes describe, when it had none.
pub proof fn law_methods_share_no_parts<C: Clone, F: Fn(CircuitBreaker) -> C>(
    attributes: Seq<PolicyAttrs>,
    share: F,
    evaluations: Seq<Evaluation<C>>,
    states: Seq<Seq<SharedParts<C>>>,
    item: int,
)
    requires
        is_history(attributes, share, evaluations, states),
        0 <= item < attributes.len(),
    ensures
        states.last().len() == attributes.len(),
        states.last()[item].made_for(attributes[item], share),
        forall|k: int|
            0 <= k < evaluations.len() && (#[trigger] evaluations[k]).item != item ==> states[k
                + 1][item] == states[k][item],
        (forall|k: int|
            0 <= k < evaluations.len() ==> (#[trigger] evaluations[k]).item != item)
            ==> states.last()[item].circuit_breaker is None && states.last()[item].bulkhead is None,
        states.last()[item].circuit_breaker matches Some(handle) ==> exists|k: int|
            0 <= k < evaluations.len() && (#[trigger] evaluations[k]).item == item
                && states[k][item].circuit_breaker is None && states[k + 1][item].circuit_breaker
                == Some(handle),
        states.last()[item].bulkhead matches Some(bulkhead) ==> exists|k: int|
            0 <= k < evaluations.len() && (#[trigger] evaluations[k]).item == item
                && states[k][item].bulkhead is None && states[k + 1][item].bulkhead == Some(
                bulkhead,
            ),
    decreases evaluations.len(),
{
    if evaluations.len() > 0 {
        let n = evaluations.len() - 1;
        let earlier = evaluations.drop_last();
        let earlier_states = states.drop_last();
        assert(forall|k: int| 0 <= k < n ==> earlier[k] == #[trigger] evaluations[k]);
        assert(forall|k: int| 0 <= k <= n ==> earlier_states[k] == #[trigger] states[k]);
        assert forall|k: int| 0 <= k < earlier.len() implies ({
            let item = (#[trigger] earlier[k]).item;
            &&& 0 <= item < attributes.len()
            &&& earlier_states[k + 1] == earlier_states[k].update(
                item,
                earlier_states[k + 1][item],
            )
            &&& attributes[item].evaluates(
                share,
                earlier_states[k][item],
                earlier_states[k + 1][item],
                earlier[k].policy,
            )
        }) by {
            assert(earlier[k] == evaluations[k]);
        }
        law_methods_share_no_parts(attributes, share, earlier, earlier_states, item);
        assert(earlier_states.last() == states[n]);
        assert(states.last() == states[n + 1]);
        let last = evaluations[n];
        assert forall|k: int|
            0 <= k < evaluations.len() && (#[trigger] evaluations[k]).item != item implies states[k
            + 1][item] == states[k][item] by {
            if k < n {
                assert(earlier[k].item != item);
            }
        }
        if last.item == item {
            law_parts_are_made_as_described(
                attributes[item],
                share,
                states[n][item],
                states[n + 1][item],
                last.policy,
            );
        }
        if forall|k: int| 0 <= k < evaluations.len() ==> (#[trigger] evaluations[k]).item != item {
            assert(last.item != item);
            assert forall|k: int| 0 <= k < earlier.len() implies (#[trigger] earlier[k]).item
                != item by {
                assert(evaluations[k].item != item);
            }
        }
        if let Some(handle) = states.last()[item].circuit_breaker {
            if states[n][item].circuit_breaker is Some {
                let k = choose|k: int|
                    0 <= k < earlier.len() && (#[trigger] earlier[k]).item == item
                        && earlier_states[k][item].circuit_breaker is None && earlier_states[k
                        + 1][item].circuit_breaker == Some(handle);
                assert(evaluations[k].item == item);
            } else {
                assert(evaluations[n].item == item);
            }
        }
        if let Some(bulkhead) = states.last()[item].bulkhead {
            if states[n][item].bulkhead is Some {
                let k = choose|k: int|
                    0 <= k < earlier.len() && (#[trigger] earlier[k]).item == item
                        && earlier_states[k][item].bulkhead is None && earlier_states[k
                        + 1][item].bulkhead == Some(bulkhead);
                assert(evaluations[k].item == item);
            } else {
                assert(evaluations[n].item == item);
            }
        }
    }
}

/// Calls in two parts are made one part after the other.
proof fn lemma_fold_parts<V, A>(start: V, first: Seq<A>, second: Seq<A>, apply: spec_fn(V, A) -> V)
    ensures
        (first + second).fold_left(start, apply) == second.fold_left(
            first.fold_left(start, apply),
            apply,
        ),
    decreases second.len(),
{
    reveal_with_fuel(Seq::fold_left, 2);
    if second.len() == 0 {
        assert(first + second =~= first);
    } else {
        lemma_fold_parts(start, first, second.drop_last(), apply);
        assert((first + second).drop_last() =~= first + second.drop_last());
    }
}

/// No call changes nothing; one call does what it does.
proof fn lemma_fold_call<V, A>(start: V, calls: Seq<A>, apply: spec_fn(V, A) -> V)
    requires
        calls.len() <= 1,
    ensures
        calls.len() == 0 ==> calls.fold_left(start, apply) == start,
        calls.len() == 1 ==> calls.fold_left(start, apply) == apply(start, calls[0]),
{
    reveal_with_fuel(Seq::fold_left, 2);
}

} // verus!
