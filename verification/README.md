# axum-fault-tolerance

Fault tolerance policies for fallible work, verified with Verus: retry, timeout,
fallback, circuit breaker and bulkhead.

A policy set says what protects an operation. Running an operation through it
alternates waiting and deciding. The library makes the decisions, as functions
with proved contracts; what waits, runs or talks to the outside stands in `app/`.

## The library (`src/`)

- `policy`: policy sets and their builder.
- `call`: one call through a policy set, step by step, and its fallback.
- `retry`: retry configuration and the jittered delay before a retry.
- `circuit`: the circuit breaker; `ratio` holds its failure ratio, a binary64
  number kept as its bit pattern.
- `bulkhead`: the limit on concurrent calls, over a Tokio semaphore; `crowd`
  follows the permits through the steps of the calls that share it.
- `classifier`: which failures are retried, trigger fallback, or count against
  the circuit.
- `error`, `time`: the error of a protected operation; durations and clock
  readings in whole nanoseconds.
- `attribute`, `method`, `setup`, `expansion`: how `#[retry]`, `#[timeout]`,
  `#[fallback]`, `#[circuit_breaker]` and `#[bulkhead]` on the methods of an
  `impl` block become policies around those methods.

Proof functions whose names start with `law_` state what holds of the library as
a whole: that a call ends and runs its operation a bounded number of times, that
at most one probe is on its way, that the circuit opens exactly at its ratio, that
a jittered delay stays in its bounds, that builder calls build what the attributes
describe, and more.

What is not proved is marked: declarations of outside types, contracts of outside
functions, and one small wrapper, each with a comment that says what is claimed.
They stand in `bulkhead` and `retry`.

## Around it (`app/`)

`app/` runs calls on Tokio, shares circuit breakers behind a lock, wraps Tower
services, and converts between Rust syntax trees and the library's description of
methods and attributes.
