use axum_fault_tolerance::attribute::{
    is_policy_attr, parse_bulkhead_attr, parse_circuit_breaker_attr, parse_failure_ratio,
    parse_fallback_attr, parse_lit_int, parse_retry_attr, parse_timeout_attr, parse_u64,
    reject_duplicate, take_policy_attrs, Argument, ArgumentError, Arguments, Attribute,
    AttributeError, BulkheadAttr, CircuitBreakerAttr, Facet, Problem, RetryAttr, Value,
};
use axum_fault_tolerance::setup::{BuilderCall, ConfigCall, RetryCall};
use axum_fault_tolerance::{CircuitBreakerConfig, Duration, FailureRatio, RetryPolicy};

fn integer(digits: &str) -> Value {
    Value::Integer(digits.as_bytes().to_vec())
}

fn argument(key: &str, value: Value) -> Argument {
    Argument { key: Some(key.to_owned()), value }
}

fn arguments(list: Vec<Argument>) -> Arguments {
    Arguments { list, complete: true }
}

fn attribute(name: &str, list: Vec<Argument>) -> Attribute {
    Attribute { name: Some(name.to_owned()), arguments: arguments(list) }
}

fn wrong(argument: usize, problem: Problem) -> ArgumentError {
    ArgumentError { argument, problem }
}

const NO_RETRY: RetryAttr =
    RetryAttr { max_retries: None, delay_ms: None, jitter_ms: None, max_duration_ms: None };

#[test]
fn integers_are_read_from_their_digits() {
    assert_eq!(parse_lit_int(&b"0".to_vec()), Ok(0));
    assert_eq!(parse_lit_int(&b"007".to_vec()), Ok(7));
    assert_eq!(parse_lit_int(&b"18446744073709551615".to_vec()), Ok(u64::MAX));
    assert_eq!(parse_lit_int(&b"18446744073709551616".to_vec()), Err(Problem::IntegerTooLarge));
    assert_eq!(
        parse_lit_int(&b"100000000000000000000000000000000000000000".to_vec()),
        Err(Problem::IntegerTooLarge)
    );
    assert_eq!(parse_lit_int(&vec![]), Err(Problem::EmptyInteger));
    assert_eq!(parse_lit_int(&b"12a".to_vec()), Err(Problem::InvalidDigit));
}

#[test]
fn only_integer_literals_are_integers() {
    assert_eq!(parse_u64(&integer("60000")), Ok(60000));
    assert_eq!(parse_u64(&Value::Float(1.0f64.to_bits())), Err(Problem::ExpectedInteger));
    assert_eq!(parse_u64(&Value::Text("7".to_owned())), Err(Problem::ExpectedInteger));
    assert_eq!(parse_u64(&Value::Other), Err(Problem::ExpectedInteger));
    assert_eq!(parse_u64(&Value::Malformed), Err(Problem::Malformed));
}

#[test]
fn ratios_are_float_or_integer_literals() {
    let bits = |value: f64| Ok(value.to_bits());
    assert_eq!(parse_failure_ratio(&Value::Float(0.25f64.to_bits())), bits(0.25));
    assert_eq!(parse_failure_ratio(&Value::Float(7.5f64.to_bits())), bits(1.0));
    assert_eq!(parse_failure_ratio(&integer("0")), bits(0.0));
    assert_eq!(parse_failure_ratio(&integer("1")), bits(1.0));
    assert_eq!(parse_failure_ratio(&integer("2")), bits(1.0));
    assert_eq!(
        parse_failure_ratio(&integer("99999999999999999999")),
        Err(Problem::IntegerTooLarge)
    );
    assert_eq!(parse_failure_ratio(&Value::Other), Err(Problem::ExpectedNumber));
    assert_eq!(parse_failure_ratio(&Value::Malformed), Err(Problem::Malformed));
}

#[test]
fn retry_arguments_are_read() {
    let all = arguments(vec![
        argument("max_retries", integer("2")),
        argument("delay_ms", integer("50")),
        argument("jitter_ms", integer("10")),
        argument("max_duration_ms", integer("1000")),
    ]);
    assert_eq!(
        parse_retry_attr(&all),
        Ok(RetryAttr {
            max_retries: Some(2),
            delay_ms: Some(50),
            jitter_ms: Some(10),
            max_duration_ms: Some(1000),
        })
    );
    assert_eq!(parse_retry_attr(&arguments(vec![])), Ok(NO_RETRY));
    let twice = arguments(vec![
        argument("delay_ms", integer("1")),
        argument("delay_ms", integer("2")),
    ]);
    assert_eq!(parse_retry_attr(&twice), Ok(RetryAttr { delay_ms: Some(2), ..NO_RETRY }));
}

#[test]
fn the_first_wrong_argument_is_reported() {
    let list = || {
        vec![
            argument("max_retries", integer("2")),
            argument("delay_ms", Value::Other),
            argument("unknown", Value::Malformed),
        ]
    };
    assert_eq!(parse_retry_attr(&arguments(list())), Err(wrong(1, Problem::ExpectedInteger)));
    let reversed = arguments(list().into_iter().rev().collect());
    assert_eq!(parse_retry_attr(&reversed), Err(wrong(0, Problem::UnknownKey)));
    let path = arguments(vec![Argument { key: None, value: integer("1") }]);
    assert_eq!(parse_retry_attr(&path), Err(wrong(0, Problem::UnknownKey)));
    let cut_off = Arguments { list: vec![argument("delay_ms", integer("1"))], complete: false };
    assert_eq!(parse_retry_attr(&cut_off), Err(wrong(1, Problem::Malformed)));
}

#[test]
fn a_timeout_needs_its_time() {
    let given = arguments(vec![argument("ms", integer("500"))]);
    assert_eq!(parse_timeout_attr(&given), Ok(500));
    assert_eq!(parse_timeout_attr(&arguments(vec![])), Err(wrong(0, Problem::Missing)));
    let other = arguments(vec![argument("delay_ms", integer("500"))]);
    assert_eq!(parse_timeout_attr(&other), Err(wrong(0, Problem::UnknownKey)));
}

#[test]
fn a_fallback_needs_its_method() {
    let given = arguments(vec![argument("method", Value::Text("cached_user".to_owned()))]);
    assert_eq!(parse_fallback_attr(&given), Ok("cached_user".to_owned()));
    assert_eq!(parse_fallback_attr(&arguments(vec![])), Err(wrong(0, Problem::Missing)));
    let number = arguments(vec![argument("method", integer("1"))]);
    assert_eq!(parse_fallback_attr(&number), Err(wrong(0, Problem::Malformed)));
}

#[test]
fn circuit_breaker_arguments_are_read() {
    let all = arguments(vec![
        argument("request_volume_threshold", integer("20")),
        argument("failure_ratio", Value::Float(0.5f64.to_bits())),
        argument("delay_ms", integer("5000")),
    ]);
    assert_eq!(
        parse_circuit_breaker_attr(&all),
        Ok(CircuitBreakerAttr {
            request_volume_threshold: Some(20),
            failure_ratio: Some(0.5f64.to_bits()),
            delay_ms: Some(5000),
        })
    );
    let other = arguments(vec![argument("max_retries", integer("1"))]);
    assert_eq!(parse_circuit_breaker_attr(&other), Err(wrong(0, Problem::UnknownKey)));
}

#[test]
fn a_bulkhead_needs_its_limit() {
    let given = arguments(vec![argument("max_concurrent", integer("32"))]);
    assert_eq!(parse_bulkhead_attr(&given), Ok(BulkheadAttr { max_concurrent: 32 }));
    assert_eq!(parse_bulkhead_attr(&arguments(vec![])), Err(wrong(0, Problem::Missing)));
}

#[test]
fn five_attributes_ask_for_policies() {
    for name in ["retry", "timeout", "fallback", "circuit_breaker", "bulkhead"] {
        assert!(is_policy_attr(&attribute(name, vec![])));
    }
    assert!(!is_policy_attr(&attribute("inline", vec![])));
    assert!(!is_policy_attr(&Attribute { name: None, arguments: arguments(vec![]) }));
}

#[test]
fn policies_are_taken_and_other_attributes_stay() {
    let attributes = vec![
        attribute("doc", vec![]),
        attribute("timeout", vec![argument("ms", integer("500"))]),
        attribute("inline", vec![]),
        attribute("retry", vec![argument("max_retries", integer("1"))]),
        Attribute { name: None, arguments: arguments(vec![]) },
    ];
    let (policy, retained) = take_policy_attrs(&attributes).unwrap();
    assert_eq!(retained, vec![0, 2, 4]);
    assert_eq!(policy.timeout_ms, Some(500));
    assert_eq!(policy.retry, Some(RetryAttr { max_retries: Some(1), ..NO_RETRY }));
    assert_eq!(policy.fallback_method, None);
    assert_eq!(policy.circuit_breaker, None);
    assert_eq!(policy.bulkhead, None);
    assert!(policy.is_enabled());
}

#[test]
fn no_policy_attribute_enables_nothing() {
    let (policy, retained) = take_policy_attrs(&vec![attribute("doc", vec![])]).unwrap();
    assert!(!policy.is_enabled());
    assert_eq!(retained, vec![0]);
}

#[test]
fn every_policy_enables() {
    let text = |text: &str| Value::Text(text.to_owned());
    for (name, list) in [
        ("retry", vec![]),
        ("timeout", vec![argument("ms", integer("1"))]),
        ("fallback", vec![argument("method", text("other"))]),
        ("circuit_breaker", vec![]),
        ("bulkhead", vec![argument("max_concurrent", integer("1"))]),
    ] {
        let (policy, _) = take_policy_attrs(&vec![attribute(name, list)]).unwrap();
        assert!(policy.is_enabled());
    }
}

#[test]
fn a_second_attribute_of_a_kind_is_an_error() {
    let attributes = vec![
        attribute("retry", vec![]),
        attribute("timeout", vec![argument("ms", integer("1"))]),
        attribute("retry", vec![argument("unknown", Value::Other)]),
    ];
    let error = take_policy_attrs(&attributes).unwrap_err();
    assert_eq!(
        error,
        AttributeError { attribute: 2, facet: Facet::Retry, error: wrong(1, Problem::Duplicate) }
    );
    assert_eq!(error.message(), Some("duplicate `#[retry]` attribute".to_owned()));
    assert_eq!(reject_duplicate(false, &arguments(vec![])), Ok(()));
    assert_eq!(
        reject_duplicate(true, &arguments(vec![])),
        Err(wrong(0, Problem::Duplicate))
    );
}

#[test]
fn attribute_errors_have_their_texts() {
    let text = |facet, problem| {
        AttributeError { attribute: 0, facet, error: wrong(0, problem) }.message()
    };
    for (facet, problem, expected) in [
        (
            Facet::Retry,
            Problem::UnknownKey,
            "expected `max_retries`, `delay_ms`, `jitter_ms`, or `max_duration_ms`",
        ),
        (Facet::Timeout, Problem::UnknownKey, "expected `ms`"),
        (Facet::Fallback, Problem::UnknownKey, "expected `method`"),
        (
            Facet::CircuitBreaker,
            Problem::UnknownKey,
            "expected `request_volume_threshold`, `failure_ratio`, or `delay_ms`",
        ),
        (Facet::Bulkhead, Problem::UnknownKey, "expected `max_concurrent`"),
        (Facet::Timeout, Problem::Missing, "`#[timeout]` requires `ms = ...`"),
        (Facet::Fallback, Problem::Missing, "`#[fallback]` requires `method = \"...\"`"),
        (Facet::Bulkhead, Problem::Missing, "`#[bulkhead]` requires `max_concurrent = ...`"),
        (Facet::Retry, Problem::ExpectedInteger, "expected integer literal"),
        (Facet::CircuitBreaker, Problem::ExpectedNumber, "expected float literal"),
        (Facet::Retry, Problem::IntegerTooLarge, "number too large to fit in target type"),
        (Facet::Retry, Problem::EmptyInteger, "cannot parse integer from empty string"),
        (Facet::Retry, Problem::InvalidDigit, "invalid digit found in string"),
        (
            Facet::CircuitBreaker,
            Problem::Duplicate,
            "duplicate `#[circuit_breaker]` attribute",
        ),
        (Facet::Timeout, Problem::Duplicate, "duplicate `#[timeout]` attribute"),
        (Facet::Fallback, Problem::Duplicate, "duplicate `#[fallback]` attribute"),
        (Facet::Bulkhead, Problem::Duplicate, "duplicate `#[bulkhead]` attribute"),
    ] {
        assert_eq!(text(facet, problem), Some(expected.to_owned()));
    }
    assert_eq!(text(Facet::Retry, Problem::Malformed), None);
}

#[test]
fn retry_calls_come_in_order() {
    let retry = RetryAttr {
        max_retries: Some(2),
        delay_ms: Some(50),
        jitter_ms: Some(10),
        max_duration_ms: Some(1000),
    };
    assert_eq!(
        retry.calls(),
        vec![
            RetryCall::MaxRetries(2),
            RetryCall::Delay(50),
            RetryCall::Jitter(10),
            RetryCall::MaxDuration(1000),
        ]
    );
    assert_eq!(
        retry.policy(),
        RetryPolicy::new()
            .max_retries(2)
            .delay(Duration::from_millis(50))
            .jitter(Duration::from_millis(10))
            .max_duration(Duration::from_millis(1000))
    );
    assert_eq!(NO_RETRY.calls(), vec![]);
    assert_eq!(NO_RETRY.policy(), RetryPolicy::new());
}

#[test]
fn config_calls_come_in_order() {
    let circuit_breaker = CircuitBreakerAttr {
        request_volume_threshold: Some(0),
        failure_ratio: Some(0.25f64.to_bits()),
        delay_ms: Some(7),
    };
    assert_eq!(
        circuit_breaker.calls(),
        vec![
            ConfigCall::RequestVolumeThreshold(0),
            ConfigCall::FailureRatio(0.25f64.to_bits()),
            ConfigCall::Delay(7),
        ]
    );
    assert_eq!(
        circuit_breaker.config(),
        CircuitBreakerConfig::new()
            .request_volume_threshold(1)
            .failure_ratio(FailureRatio::from_bits(0.25f64.to_bits()))
            .delay(Duration::from_millis(7))
    );
}

#[test]
fn builder_calls_come_in_order() {
    let attributes = vec![
        attribute("bulkhead", vec![argument("max_concurrent", integer("8"))]),
        attribute("circuit_breaker", vec![]),
        attribute("retry", vec![]),
        attribute("timeout", vec![argument("ms", integer("250"))]),
        attribute("fallback", vec![argument("method", Value::Text("other".to_owned()))]),
    ];
    let (policy, _) = take_policy_attrs(&attributes).unwrap();
    assert_eq!(
        policy.builder_calls(),
        vec![
            BuilderCall::Timeout(250),
            BuilderCall::Retry(NO_RETRY),
            BuilderCall::CircuitBreaker(CircuitBreakerAttr {
                request_volume_threshold: None,
                failure_ratio: None,
                delay_ms: None,
            }),
            BuilderCall::Bulkhead(8),
        ]
    );
}
