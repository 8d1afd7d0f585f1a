//! Fault tolerance policies for fallible work: retry, timeout, fallback,
//! circuit breaker and bulkhead.
//!
//! A [`FaultTolerance`] policy set says what protects an operation. Running an
//! operation through it alternates waiting and deciding; the library decides.
//! [`FaultTolerance::start_call`] gives the first [`Step`] of a call, which says
//! what is to be done next, and each step takes the result of that to the step
//! after it. [`CircuitBreaker`] and [`Bulkhead`] hold what calls share, and a
//! [`FailureClassifier`] says which failures matter.
//!
//! The modules [`attribute`], [`method`], [`setup`] and [`expansion`] decide how
//! method attributes become policies around a method.
//!
//! The modules whose names end in `_laws` state what the operations of the others do,
//! in terms of what goes into them and what comes out.

pub mod attribute;
pub mod attribute_laws;
pub mod bulkhead;
pub mod call;
pub mod call_laws;
pub mod circuit;
pub mod circuit_laws;
pub mod classifier;
pub mod classifier_laws;
pub mod crowd;
pub mod error;
pub mod expansion;
pub mod expansion_laws;
pub mod method;
pub mod policy;
pub mod ratio;
pub mod ratio_laws;
pub mod retry;
pub mod setup;
pub mod setup_laws;
pub mod text_laws;
pub mod time;

pub use bulkhead::Bulkhead;
pub use call::Step;
pub use circuit::{
    CircuitBreaker, CircuitBreakerConfig, CircuitBreakerState, CircuitPermit, SharedBreaker,
};
pub use classifier::FailureClassifier;
pub use error::Error;
pub use policy::{FaultTolerance, FaultToleranceBuilder};
pub use ratio::FailureRatio;
pub use retry::RetryPolicy;
pub use time::{Duration, Instant};
