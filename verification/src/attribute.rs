//! Policy attributes on methods: which there are, what their arguments say, and
//! the policy that they describe.

use vstd::prelude::*;

use crate::ratio::{clamped, FailureRatio, ONE_BITS};

verus! {

/// The policies that a method attribute can ask for.
#[derive(Debug, Clone, Copy, PartialEq, Eq, Structural)]
pub enum Facet {
    /// `#[retry]`
    Retry,
    /// `#[timeout]`
    Timeout,
    /// `#[fallback]`
    Fallback,
    /// `#[circuit_breaker]`
    CircuitBreaker,
    /// `#[bulkhead]`
    Bulkhead,
}

/// The value of an argument, as a macro reads it.
#[derive(Debug)]
pub enum Value {
    /// An integer literal: the ASCII decimal digits of its number.
    Integer(Vec<u8>),
    /// A floating-point literal: the binary64 bit pattern of its number.
    Float(u64),
    /// A string literal.
    Text(String),
    /// Any other expression.
    Other,
    /// No expression at all.
    Malformed,
}

/// An argument of an attribute.
#[derive(Debug)]
pub struct Argument {
    /// The name of the argument, where it is a single identifier.
    pub key: Option<String>,
    /// The value of the argument.
    pub value: Value,
}

/// The arguments of an attribute, as far as they could be read.
#[derive(Debug)]
pub struct Arguments {
    /// The arguments in order.
    pub list: Vec<Argument>,
    /// Whether the list is all there was, with nothing malformed behind it.
    pub complete: bool,
}

/// An attribute of a method.
#[derive(Debug)]
pub struct Attribute {
    /// The name of the attribute, where it is a single identifier.
    pub name: Option<String>,
    /// The arguments of the attribute.
    pub arguments: Arguments,
}

/// One argument, understood.
#[derive(Debug)]
pub enum Setting {
    /// `max_retries`
    MaxRetries(u64),
    /// `delay_ms`
    DelayMs(u64),
    /// `jitter_ms`
    JitterMs(u64),
    /// `max_duration_ms`
    MaxDurationMs(u64),
    /// `ms`
    Ms(u64),
    /// `method`
    Method(String),
    /// `request_volume_threshold`
    RequestVolumeThreshold(u64),
    /// `failure_ratio`, as a bit pattern held to the range from 0 to 1
    FailureRatio(u64),
    /// `max_concurrent`
    MaxConcurrent(u64),
}

/// What can be wrong with the arguments of an attribute.
#[derive(Debug, Clone, Copy, PartialEq, Eq)]
pub enum Problem {
    /// The attribute knows no argument of that name.
    UnknownKey,
    /// The argument, or what stands behind the last one, does not parse.
    Malformed,
    /// The value is no integer literal.
    ExpectedInteger,
    /// The integer does not fit.
    IntegerTooLarge,
    /// The integer has no digit.
    EmptyInteger,
    /// The integer has something else among its digits.
    InvalidDigit,
    /// The value is no number.
    ExpectedNumber,
    /// An argument that the attribute needs is missing.
    Missing,
    /// The method has that attribute already.
    Duplicate,
}

/// What is wrong with the arguments of an attribute, and with which one.
#[derive(Debug, Clone, Copy, PartialEq, Eq)]
pub struct ArgumentError {
    /// The argument by its position; the number of arguments for the list itself.
    pub argument: usize,
    /// What is wrong.
    pub problem: Problem,
}

/// What is wrong with the attributes of a method, and with which one.
#[derive(Debug, Clone, Copy, PartialEq, Eq)]
pub struct AttributeError {
    /// The attribute by its position.
    pub attribute: usize,
    /// The policy that the attribute asks for.
    pub facet: Facet,
    /// What is wrong.
    pub error: ArgumentError,
}

impl Facet {
    /// The name of the attribute that asks for this policy.
    pub open spec fn attribute_name(self) -> Seq<char> {
        match self {
            Facet::Retry => "retry"@,
            Facet::Timeout => "timeout"@,
            Facet::Fallback => "fallback"@,
            Facet::CircuitBreaker => "circuit_breaker"@,
            Facet::Bulkhead => "bulkhead"@,
        }
    }

    /// The name of the attribute that asks for this policy.
    pub fn name(&self) -> (name: &'static str)
        ensures
            name@ == self.attribute_name(),
    {
        match self {
            Facet::Retry => "retry",
            Facet::Timeout => "timeout",
            Facet::Fallback => "fallback",
            Facet::CircuitBreaker => "circuit_breaker",
            Facet::Bulkhead => "bulkhead",
        }
    }

    /// What is said where the attribute has an argument that it does not know.
    pub open spec fn expected_keys(self) -> Seq<char> {
        match self {
            Facet::Retry => "expected `max_retries`, `delay_ms`, `jitter_ms`, or `max_duration_ms`"@,
            Facet::Timeout => "expected `ms`"@,
            Facet::Fallback => "expected `method`"@,
            Facet::CircuitBreaker => "expected `request_volume_threshold`, `failure_ratio`, or `delay_ms`"@,
            Facet::Bulkhead => "expected `max_concurrent`"@,
        }
    }

    /// What is said where the attribute lacks an argument that it needs.
    pub open spec fn needed_keys(self) -> Seq<char> {
        match self {
            Facet::Timeout => "`#[timeout]` requires `ms = ...`"@,
            Facet::Fallback => "`#[fallback]` requires `method = \"...\"`"@,
            Facet::Bulkhead => "`#[bulkhead]` requires `max_concurrent = ...`"@,
            Facet::Retry | Facet::CircuitBreaker => ""@,
        }
    }
}

impl AttributeError {
    /// The error as text. What does not parse has the text of the parser's own
    /// error.
    pub open spec fn text(self) -> Option<Seq<char>> {
        match self.error.problem {
            Problem::UnknownKey => Some(self.facet.expected_keys()),
            Problem::Malformed => None,
            Problem::ExpectedInteger => Some("expected integer literal"@),
            Problem::IntegerTooLarge => Some("number too large to fit in target type"@),
            Problem::EmptyInteger => Some("cannot parse integer from empty string"@),
            Problem::InvalidDigit => Some("invalid digit found in string"@),
            Problem::ExpectedNumber => Some("expected float literal"@),
            Problem::Missing => Some(self.facet.needed_keys()),
            Problem::Duplicate => Some(
                "duplicate `#["@ + self.facet.attribute_name() + "]` attribute"@,
            ),
        }
    }

    /// The error as text, where it is not for the parser to say.
    pub fn message(&self) -> (message: Option<String>)
        ensures
            match message {
                Some(message) => self.text() == Some(message@),
                None => self.text() is None,
            },
    {
        let message = match self.error.problem {
            Problem::UnknownKey => match self.facet {
                Facet::Retry => "expected `max_retries`, `delay_ms`, `jitter_ms`, or `max_duration_ms`",
                Facet::Timeout => "expected `ms`",
                Facet::Fallback => "expected `method`",
                Facet::CircuitBreaker => "expected `request_volume_threshold`, `failure_ratio`, or `delay_ms`",
                Facet::Bulkhead => "expected `max_concurrent`",
            },
            Problem::Malformed => {
                return None;
            },
            Problem::ExpectedInteger => "expected integer literal",
            Problem::IntegerTooLarge => "number too large to fit in target type",
            Problem::EmptyInteger => "cannot parse integer from empty string",
            Problem::InvalidDigit => "invalid digit found in string",
            Problem::ExpectedNumber => "expected float literal",
            Problem::Missing => match self.facet {
                Facet::Timeout => "`#[timeout]` requires `ms = ...`",
                Facet::Fallback => "`#[fallback]` requires `method = \"...\"`",
                Facet::Bulkhead => "`#[bulkhead]` requires `max_concurrent = ...`",
                Facet::Retry | Facet::CircuitBreaker => "",
            },
            Problem::Duplicate => {
                let opened = "duplicate `#[".to_owned().concat(self.facet.name());
                return Some(opened.concat("]` attribute"));
            },
        };
        Some(message.to_owned())
    }
}

/// The policy that an attribute of the given name asks for.
pub open spec fn facet_named(name: Seq<char>) -> Option<Facet> {
    if name == "retry"@ {
        Some(Facet::Retry)
    } else if name == "timeout"@ {
        Some(Facet::Timeout)
    } else if name == "fallback"@ {
        Some(Facet::Fallback)
    } else if name == "circuit_breaker"@ {
        Some(Facet::CircuitBreaker)
    } else if name == "bulkhead"@ {
        Some(Facet::Bulkhead)
    } else {
        None
    }
}

impl Attribute {
    /// The policy that this attribute asks for.
    pub open spec fn asks_for(&self) -> Option<Facet> {
        match self.name {
            Some(name) => facet_named(name@),
            None => None,
        }
    }

    /// The policy that this attribute asks for, if any.
    pub fn facet(&self) -> (facet: Option<Facet>)
        ensures
            facet == self.asks_for(),
    {
        let name = match &self.name {
            Some(name) => name,
            None => {
                return None;
            },
        };
        if is_text(name, "retry") {
            Some(Facet::Retry)
        } else if is_text(name, "timeout") {
            Some(Facet::Timeout)
        } else if is_text(name, "fallback") {
            Some(Facet::Fallback)
        } else if is_text(name, "circuit_breaker") {
            Some(Facet::CircuitBreaker)
        } else if is_text(name, "bulkhead") {
            Some(Facet::Bulkhead)
        } else {
            None
        }
    }
}

/// Whether an attribute asks for a policy.
pub fn is_policy_attr(attribute: &Attribute) -> (is_policy: bool)
    ensures
        is_policy == (attribute.asks_for() is Some),
{
    attribute.facet().is_some()
}

/// Whether a string holds the given text.
pub(crate) fn is_text(string: &String, text: &str) -> (same: bool)
    ensures
        same == (string@ == text@),
{
    *string == text.to_owned()
}

/// Whether a byte is an ASCII decimal digit.
pub open spec fn is_digit(byte: u8) -> bool {
    0x30 <= byte <= 0x39
}

/// The number that decimal digits write.
pub open spec fn decimal(digits: Seq<u8>) -> nat
    decreases digits.len(),
{
    if digits.len() == 0 {
        0
    } else {
        10 * decimal(digits.drop_last()) + (digits.last() - 0x30) as nat
    }
}

/// The number of an integer literal, where it has digits, nothing else, and they
/// write one that fits.
pub open spec fn integer(digits: Seq<u8>) -> Result<u64, Problem> {
    if digits.len() == 0 {
        Err(Problem::EmptyInteger)
    } else if exists|i: int| 0 <= i < digits.len() && !is_digit(digits[i]) {
        Err(Problem::InvalidDigit)
    } else if decimal(digits) > u64::MAX {
        Err(Problem::IntegerTooLarge)
    } else {
        Ok(decimal(digits) as u64)
    }
}

/// Reads the number of an integer literal from its decimal digits.
pub fn parse_lit_int(digits: &Vec<u8>) -> (number: Result<u64, Problem>)
    ensures
        number == integer(digits@),
{
    if digits.len() == 0 {
        return Err(Problem::EmptyInteger);
    }
    let mut number: u64 = 0;
    let mut next: usize = 0;
    let mut fits: bool = true;
    while next < digits.len()
        invariant
            next <= digits@.len(),
            forall|i: int| 0 <= i < next ==> is_digit(digits@[i]),
            fits ==> number == decimal(digits@.take(next as int)),
            !fits ==> decimal(digits@.take(next as int)) > u64::MAX,
        decreases digits@.len() - next,
    {
        let digit: u8 = digits[next];
        if digit < 0x30 || digit > 0x39 {
            assert(!is_digit(digits@[next as int]));
            return Err(Problem::InvalidDigit);
        }
        assert(digits@.take(next + 1).drop_last() == digits@.take(next as int));
        if fits {
            let grown: u128 = 10 * number as u128 + (digit - 0x30) as u128;
            if grown <= u64::MAX as u128 {
                number = grown as u64;
            } else {
                fits = false;
            }
        }
        next = next + 1;
    }
    assert(digits@.take(next as int) == digits@);
    if fits {
        Ok(number)
    } else {
        Err(Problem::IntegerTooLarge)
    }
}

/// The integer that a value gives.
pub open spec fn integer_value(value: Value) -> Result<u64, Problem> {
    match value {
        Value::Integer(digits) => integer(digits@),
        Value::Malformed => Err(Problem::Malformed),
        _ => Err(Problem::ExpectedInteger),
    }
}

/// Reads the integer that a value gives.
pub fn parse_u64(value: &Value) -> (number: Result<u64, Problem>)
    ensures
        number == integer_value(*value),
{
    match value {
        Value::Integer(digits) => parse_lit_int(digits),
        Value::Malformed => Err(Problem::Malformed),
        Value::Float(_) | Value::Text(_) | Value::Other => Err(Problem::ExpectedInteger),
    }
}

/// The failure ratio that a value gives, held to the range from 0 to 1.
pub open spec fn ratio_value(value: Value) -> Result<u64, Problem> {
    match value {
        Value::Float(bits) => Ok(clamped(bits)),
        Value::Integer(digits) => match integer(digits@) {
            Ok(number) => Ok(
                if number == 0 {
                    0
                } else {
                    ONE_BITS
                },
            ),
            Err(problem) => Err(problem),
        },
        Value::Malformed => Err(Problem::Malformed),
        _ => Err(Problem::ExpectedNumber),
    }
}

/// Reads the failure ratio that a value gives.
pub fn parse_failure_ratio(value: &Value) -> (bits: Result<u64, Problem>)
    ensures
        bits == ratio_value(*value),
{
    match value {
        Value::Float(bits) => Ok(FailureRatio::from_bits(*bits).to_bits()),
        Value::Integer(digits) => match parse_lit_int(digits) {
            Ok(number) => Ok(FailureRatio::from_integer(number).to_bits()),
            Err(problem) => Err(problem),
        },
        Value::Malformed => Err(Problem::Malformed),
        Value::Text(_) | Value::Other => Err(Problem::ExpectedNumber),
    }
}

/// The string that a value gives.
pub open spec fn text_value(value: Value) -> Result<String, Problem> {
    match value {
        Value::Text(text) => Ok(text),
        _ => Err(Problem::Malformed),
    }
}

/// Reads the string that a value gives.
pub fn parse_text(value: &Value) -> (text: Result<String, Problem>)
    ensures
        text == text_value(*value),
{
    match value {
        Value::Text(text) => Ok(text.clone()),
        Value::Integer(_) | Value::Float(_) | Value::Other | Value::Malformed => Err(
            Problem::Malformed,
        ),
    }
}

/// A setting made of an integer, where there is one.
pub open spec fn with_integer(
    number: Result<u64, Problem>,
    setting: spec_fn(u64) -> Setting,
) -> Result<Setting, Problem> {
    match number {
        Ok(number) => Ok(setting(number)),
        Err(problem) => Err(problem),
    }
}

/// What an argument of an attribute sets. The name decides first: the value of
/// an argument that the attribute does not know is not looked at.
pub open spec fn argument_setting(facet: Facet, argument: Argument) -> Result<Setting, Problem> {
    match argument.key {
        Some(key) => named_setting(facet, key@, argument.value),
        None => Err(Problem::UnknownKey),
    }
}

/// What an argument of the given name sets.
pub open spec fn named_setting(facet: Facet, key: Seq<char>, value: Value) -> Result<
    Setting,
    Problem,
> {
    let number = integer_value(value);
    match facet {
        Facet::Retry => if key == "max_retries"@ {
            with_integer(number, |n: u64| Setting::MaxRetries(n))
        } else if key == "delay_ms"@ {
            with_integer(number, |n: u64| Setting::DelayMs(n))
        } else if key == "jitter_ms"@ {
            with_integer(number, |n: u64| Setting::JitterMs(n))
        } else if key == "max_duration_ms"@ {
            with_integer(number, |n: u64| Setting::MaxDurationMs(n))
        } else {
            Err(Problem::UnknownKey)
        },
        Facet::Timeout => if key == "ms"@ {
            with_integer(number, |n: u64| Setting::Ms(n))
        } else {
            Err(Problem::UnknownKey)
        },
        Facet::Fallback => if key == "method"@ {
            match text_value(value) {
                Ok(text) => Ok(Setting::Method(text)),
                Err(problem) => Err(problem),
            }
        } else {
            Err(Problem::UnknownKey)
        },
        Facet::CircuitBreaker => if key == "request_volume_threshold"@ {
            with_integer(number, |n: u64| Setting::RequestVolumeThreshold(n))
        } else if key == "failure_ratio"@ {
            with_integer(ratio_value(value), |bits: u64| Setting::FailureRatio(bits))
        } else if key == "delay_ms"@ {
            with_integer(number, |n: u64| Setting::DelayMs(n))
        } else {
            Err(Problem::UnknownKey)
        },
        Facet::Bulkhead => if key == "max_concurrent"@ {
            with_integer(number, |n: u64| Setting::MaxConcurrent(n))
        } else {
            Err(Problem::UnknownKey)
        },
    }
}

/// Reads what an argument of an attribute sets.
pub fn parse_argument(facet: Facet, argument: &Argument) -> (setting: Result<Setting, Problem>)
    ensures
        setting == argument_setting(facet, *argument),
{
    let key = match &argument.key {
        Some(key) => key,
        None => {
            return Err(Problem::UnknownKey);
        },
    };
    let value = &argument.value;
    match facet {
        Facet::Retry => {
            if is_text(key, "max_retries") {
                Ok(Setting::MaxRetries(parse_u64(value)?))
            } else if is_text(key, "delay_ms") {
                Ok(Setting::DelayMs(parse_u64(value)?))
            } else if is_text(key, "jitter_ms") {
                Ok(Setting::JitterMs(parse_u64(value)?))
            } else if is_text(key, "max_duration_ms") {
                Ok(Setting::MaxDurationMs(parse_u64(value)?))
            } else {
                Err(Problem::UnknownKey)
            }
        },
        Facet::Timeout => {
            if is_text(key, "ms") {
                Ok(Setting::Ms(parse_u64(value)?))
            } else {
                Err(Problem::UnknownKey)
            }
        },
        Facet::Fallback => {
            if is_text(key, "method") {
                Ok(Setting::Method(parse_text(value)?))
            } else {
                Err(Problem::UnknownKey)
            }
        },
        Facet::CircuitBreaker => {
            if is_text(key, "request_volume_threshold") {
                Ok(Setting::RequestVolumeThreshold(parse_u64(value)?))
            } else if is_text(key, "failure_ratio") {
                Ok(Setting::FailureRatio(parse_failure_ratio(value)?))
            } else if is_text(key, "delay_ms") {
                Ok(Setting::DelayMs(parse_u64(value)?))
            } else {
                Err(Problem::UnknownKey)
            }
        },
        Facet::Bulkhead => {
            if is_text(key, "max_concurrent") {
                Ok(Setting::MaxConcurrent(parse_u64(value)?))
            } else {
                Err(Problem::UnknownKey)
            }
        },
    }
}

/// What the arguments from a position on set, or the first thing that is wrong
/// with them.
pub open spec fn settings_from(facet: Facet, arguments: Arguments, from: nat) -> Result<
    Seq<Setting>,
    ArgumentError,
>
    decreases arguments.list@.len() - from,
{
    if from < arguments.list@.len() {
        match argument_setting(facet, arguments.list@[from as int]) {
            Ok(setting) => match settings_from(facet, arguments, from + 1) {
                Ok(rest) => Ok(seq![setting] + rest),
                Err(error) => Err(error),
            },
            Err(problem) => Err(ArgumentError { argument: from as usize, problem }),
        }
    } else if arguments.complete {
        Ok(Seq::empty())
    } else {
        Err(ArgumentError { argument: from as usize, problem: Problem::Malformed })
    }
}

/// What the arguments of an attribute set, or the first thing that is wrong with
/// them.
pub open spec fn settings(facet: Facet, arguments: Arguments) -> Result<
    Seq<Setting>,
    ArgumentError,
> {
    settings_from(facet, arguments, 0)
}

/// Reads what the arguments of an attribute set.
fn parse_settings(facet: Facet, arguments: &Arguments) -> (read: Result<
    Vec<Setting>,
    ArgumentError,
>)
    ensures
        match read {
            Ok(list) => settings(facet, *arguments) == Ok::<Seq<Setting>, ArgumentError>(list@),
            Err(error) => settings(facet, *arguments) == Err::<Seq<Setting>, ArgumentError>(error),
        },
{
    let mut list: Vec<Setting> = Vec::new();
    let mut next: usize = 0;
    while next < arguments.list.len()
        invariant
            next <= arguments.list@.len(),
            settings(facet, *arguments) == match settings_from(facet, *arguments, next as nat) {
                Ok(rest) => Ok::<Seq<Setting>, ArgumentError>(list@ + rest),
                Err(error) => Err(error),
            },
        decreases arguments.list@.len() - next,
    {
        match parse_argument(facet, &arguments.list[next]) {
            Ok(setting) => {
                proof {
                    match settings_from(facet, *arguments, next as nat + 1) {
                        Ok(rest) => {
                            assert(list@ + (seq![setting] + rest) == list@.push(setting) + rest);
                        },
                        Err(_) => {},
                    }
                }
                list.push(setting);
            },
            Err(problem) => {
                return Err(ArgumentError { argument: next, problem });
            },
        }
        next = next + 1;
    }
    if arguments.complete {
        assert(list@ + Seq::<Setting>::empty() == list@);
        Ok(list)
    } else {
        Err(ArgumentError { argument: next, problem: Problem::Malformed })
    }
}

/// The arguments of `#[retry]`.
#[derive(Debug, Clone, Copy, PartialEq, Eq)]
pub struct RetryAttr {
    /// The number of retries after the initial attempt.
    pub max_retries: Option<u64>,
    /// The delay between attempts, in milliseconds.
    pub delay_ms: Option<u64>,
    /// The random variation of the delay, in milliseconds.
    pub jitter_ms: Option<u64>,
    /// The time for all attempts, in milliseconds.
    pub max_duration_ms: Option<u64>,
}

/// The arguments of `#[circuit_breaker]`.
#[derive(Debug, Clone, Copy, PartialEq, Eq)]
pub struct CircuitBreakerAttr {
    /// How many recent calls are considered.
    pub request_volume_threshold: Option<u64>,
    /// The bit pattern of the ratio of failures that opens the circuit.
    pub failure_ratio: Option<u64>,
    /// How long the circuit stays open, in milliseconds.
    pub delay_ms: Option<u64>,
}

/// The arguments of `#[bulkhead]`.
#[derive(Debug, Clone, Copy, PartialEq, Eq)]
pub struct BulkheadAttr {
    /// The number of calls at the same time.
    pub max_concurrent: u64,
}

/// The policies that the attributes of a method ask for.
#[derive(Debug)]
pub struct PolicyAttrs {
    /// `#[retry]`
    pub retry: Option<RetryAttr>,
    /// `#[timeout]`: the time limit of one attempt, in milliseconds
    pub timeout_ms: Option<u64>,
    /// `#[fallback]`: the name of the fallback method
    pub fallback_method: Option<String>,
    /// `#[circuit_breaker]`
    pub circuit_breaker: Option<CircuitBreakerAttr>,
    /// `#[bulkhead]`
    pub bulkhead: Option<BulkheadAttr>,
}

/// What settings of `#[retry]` say together. The last one of a name holds.
pub open spec fn retry_settings(settings: Seq<Setting>) -> RetryAttr
    decreases settings.len(),
{
    if settings.len() == 0 {
        RetryAttr { max_retries: None, delay_ms: None, jitter_ms: None, max_duration_ms: None }
    } else {
        let before = retry_settings(settings.drop_last());
        match settings.last() {
            Setting::MaxRetries(n) => RetryAttr { max_retries: Some(n), ..before },
            Setting::DelayMs(n) => RetryAttr { delay_ms: Some(n), ..before },
            Setting::JitterMs(n) => RetryAttr { jitter_ms: Some(n), ..before },
            Setting::MaxDurationMs(n) => RetryAttr { max_duration_ms: Some(n), ..before },
            _ => before,
        }
    }
}

/// What settings of `#[circuit_breaker]` say together. The last one of a name
/// holds.
pub open spec fn circuit_breaker_settings(settings: Seq<Setting>) -> CircuitBreakerAttr
    decreases settings.len(),
{
    if settings.len() == 0 {
        CircuitBreakerAttr { request_volume_threshold: None, failure_ratio: None, delay_ms: None }
    } else {
        let before = circuit_breaker_settings(settings.drop_last());
        match settings.last() {
            Setting::RequestVolumeThreshold(n) => CircuitBreakerAttr {
                request_volume_threshold: Some(n),
                ..before
            },
            Setting::FailureRatio(bits) => CircuitBreakerAttr {
                failure_ratio: Some(bits),
                ..before
            },
            Setting::DelayMs(n) => CircuitBreakerAttr { delay_ms: Some(n), ..before },
            _ => before,
        }
    }
}

/// The time limit that settings of `#[timeout]` give.
pub open spec fn timeout_setting(settings: Seq<Setting>) -> Option<u64>
    decreases settings.len(),
{
    if settings.len() == 0 {
        None
    } else {
        match settings.last() {
            Setting::Ms(n) => Some(n),
            _ => timeout_setting(settings.drop_last()),
        }
    }
}

/// The method that settings of `#[fallback]` give.
pub open spec fn fallback_setting(settings: Seq<Setting>) -> Option<String>
    decreases settings.len(),
{
    if settings.len() == 0 {
        None
    } else {
        match settings.last() {
            Setting::Method(name) => Some(name),
            _ => fallback_setting(settings.drop_last()),
        }
    }
}

/// The limit that settings of `#[bulkhead]` give.
pub open spec fn bulkhead_setting(settings: Seq<Setting>) -> Option<u64>
    decreases settings.len(),
{
    if settings.len() == 0 {
        None
    } else {
        match settings.last() {
            Setting::MaxConcurrent(n) => Some(n),
            _ => bulkhead_setting(settings.drop_last()),
        }
    }
}

/// An argument that an attribute needs, or that it is missing.
pub open spec fn needed<A>(value: Option<A>, arguments: Arguments) -> Result<A, ArgumentError> {
    match value {
        Some(value) => Ok(value),
        None => Err(
            ArgumentError {
                argument: arguments.list@.len() as usize,
                problem: Problem::Missing,
            },
        ),
    }
}

/// What `#[retry]` with the given arguments asks for.
pub open spec fn retry_attr(arguments: Arguments) -> Result<RetryAttr, ArgumentError> {
    match settings(Facet::Retry, arguments) {
        Ok(settings) => Ok(retry_settings(settings)),
        Err(error) => Err(error),
    }
}

/// What `#[timeout]` with the given arguments asks for.
pub open spec fn timeout_attr(arguments: Arguments) -> Result<u64, ArgumentError> {
    match settings(Facet::Timeout, arguments) {
        Ok(settings) => needed(timeout_setting(settings), arguments),
        Err(error) => Err(error),
    }
}

/// What `#[fallback]` with the given arguments asks for.
pub open spec fn fallback_attr(arguments: Arguments) -> Result<String, ArgumentError> {
    match settings(Facet::Fallback, arguments) {
        Ok(settings) => needed(fallback_setting(settings), arguments),
        Err(error) => Err(error),
    }
}

/// What `#[circuit_breaker]` with the given arguments asks for.
pub open spec fn circuit_breaker_attr(arguments: Arguments) -> Result<
    CircuitBreakerAttr,
    ArgumentError,
> {
    match settings(Facet::CircuitBreaker, arguments) {
        Ok(settings) => Ok(circuit_breaker_settings(settings)),
        Err(error) => Err(error),
    }
}

/// What `#[bulkhead]` with the given arguments asks for.
pub open spec fn bulkhead_attr(arguments: Arguments) -> Result<BulkheadAttr, ArgumentError> {
    match settings(Facet::Bulkhead, arguments) {
        Ok(settings) => match needed(bulkhead_setting(settings), arguments) {
            Ok(max_concurrent) => Ok(BulkheadAttr { max_concurrent }),
            Err(error) => Err(error),
        },
        Err(error) => Err(error),
    }
}

/// Reads the arguments of `#[retry]`.
pub fn parse_retry_attr(arguments: &Arguments) -> (retry: Result<RetryAttr, ArgumentError>)
    ensures
        retry == retry_attr(*arguments),
{
    let list = parse_settings(Facet::Retry, arguments)?;
    let mut retry = RetryAttr {
        max_retries: None,
        delay_ms: None,
        jitter_ms: None,
        max_duration_ms: None,
    };
    let mut next: usize = 0;
    while next < list.len()
        invariant
            next <= list@.len(),
            retry == retry_settings(list@.take(next as int)),
        decreases list@.len() - next,
    {
        assert(list@.take(next + 1).drop_last() == list@.take(next as int));
        match &list[next] {
            Setting::MaxRetries(n) => {
                retry.max_retries = Some(*n);
            },
            Setting::DelayMs(n) => {
                retry.delay_ms = Some(*n);
            },
            Setting::JitterMs(n) => {
                retry.jitter_ms = Some(*n);
            },
            Setting::MaxDurationMs(n) => {
                retry.max_duration_ms = Some(*n);
            },
            _ => {},
        }
        next = next + 1;
    }
    assert(list@.take(next as int) == list@);
    Ok(retry)
}

/// Reads the arguments of `#[timeout]`.
pub fn parse_timeout_attr(arguments: &Arguments) -> (timeout_ms: Result<u64, ArgumentError>)
    ensures
        timeout_ms == timeout_attr(*arguments),
{
    let list = parse_settings(Facet::Timeout, arguments)?;
    let mut timeout_ms: Option<u64> = None;
    let mut next: usize = 0;
    while next < list.len()
        invariant
            next <= list@.len(),
            timeout_ms == timeout_setting(list@.take(next as int)),
        decreases list@.len() - next,
    {
        assert(list@.take(next + 1).drop_last() == list@.take(next as int));
        match &list[next] {
            Setting::Ms(n) => {
                timeout_ms = Some(*n);
            },
            _ => {},
        }
        next = next + 1;
    }
    assert(list@.take(next as int) == list@);
    match timeout_ms {
        Some(timeout_ms) => Ok(timeout_ms),
        None => Err(ArgumentError { argument: arguments.list.len(), problem: Problem::Missing }),
    }
}

/// Reads the arguments of `#[fallback]`.
pub fn parse_fallback_attr(arguments: &Arguments) -> (method: Result<String, ArgumentError>)
    ensures
        method == fallback_attr(*arguments),
{
    let list = parse_settings(Facet::Fallback, arguments)?;
    let mut method: Option<String> = None;
    let mut next: usize = 0;
    while next < list.len()
        invariant
            next <= list@.len(),
            method == fallback_setting(list@.take(next as int)),
        decreases list@.len() - next,
    {
        assert(list@.take(next + 1).drop_last() == list@.take(next as int));
        match &list[next] {
            Setting::Method(name) => {
                method = Some(name.clone());
            },
            _ => {},
        }
        next = next + 1;
    }
    assert(list@.take(next as int) == list@);
    match method {
        Some(method) => Ok(method),
        None => Err(ArgumentError { argument: arguments.list.len(), problem: Problem::Missing }),
    }
}

/// Reads the arguments of `#[circuit_breaker]`.
pub fn parse_circuit_breaker_attr(arguments: &Arguments) -> (circuit_breaker: Result<
    CircuitBreakerAttr,
    ArgumentError,
>)
    ensures
        circuit_breaker == circuit_breaker_attr(*arguments),
{
    let list = parse_settings(Facet::CircuitBreaker, arguments)?;
    let mut circuit_breaker = CircuitBreakerAttr {
        request_volume_threshold: None,
        failure_ratio: None,
        delay_ms: None,
    };
    let mut next: usize = 0;
    while next < list.len()
        invariant
            next <= list@.len(),
            circuit_breaker == circuit_breaker_settings(list@.take(next as int)),
        decreases list@.len() - next,
    {
        assert(list@.take(next + 1).drop_last() == list@.take(next as int));
        match &list[next] {
            Setting::RequestVolumeThreshold(n) => {
                circuit_breaker.request_volume_threshold = Some(*n);
            },
            Setting::FailureRatio(bits) => {
                circuit_breaker.failure_ratio = Some(*bits);
            },
            Setting::DelayMs(n) => {
                circuit_breaker.delay_ms = Some(*n);
            },
            _ => {},
        }
        next = next + 1;
    }
    assert(list@.take(next as int) == list@);
    Ok(circuit_breaker)
}

/// Reads the arguments of `#[bulkhead]`.
pub fn parse_bulkhead_attr(arguments: &Arguments) -> (bulkhead: Result<
    BulkheadAttr,
    ArgumentError,
>)
    ensures
        bulkhead == bulkhead_attr(*arguments),
{
    let list = parse_settings(Facet::Bulkhead, arguments)?;
    let mut max_concurrent: Option<u64> = None;
    let mut next: usize = 0;
    while next < list.len()
        invariant
            next <= list@.len(),
            max_concurrent == bulkhead_setting(list@.take(next as int)),
        decreases list@.len() - next,
    {
        assert(list@.take(next + 1).drop_last() == list@.take(next as int));
        match &list[next] {
            Setting::MaxConcurrent(n) => {
                max_concurrent = Some(*n);
            },
            _ => {},
        }
        next = next + 1;
    }
    assert(list@.take(next as int) == list@);
    match max_concurrent {
        Some(max_concurrent) => Ok(BulkheadAttr { max_concurrent }),
        None => Err(ArgumentError { argument: arguments.list.len(), problem: Problem::Missing }),
    }
}

/// Policies that nothing asks for.
pub open spec fn no_attrs() -> PolicyAttrs {
    PolicyAttrs {
        retry: None,
        timeout_ms: None,
        fallback_method: None,
        circuit_breaker: None,
        bulkhead: None,
    }
}

impl PolicyAttrs {
    /// Whether a policy is asked for.
    pub open spec fn has(self, facet: Facet) -> bool {
        match facet {
            Facet::Retry => self.retry is Some,
            Facet::Timeout => self.timeout_ms is Some,
            Facet::Fallback => self.fallback_method is Some,
            Facet::CircuitBreaker => self.circuit_breaker is Some,
            Facet::Bulkhead => self.bulkhead is Some,
        }
    }

    /// The policies with one more attribute, which must not be there twice.
    pub open spec fn with(self, facet: Facet, arguments: Arguments) -> Result<
        PolicyAttrs,
        ArgumentError,
    > {
        if self.has(facet) {
            Err(
                ArgumentError {
                    argument: arguments.list@.len() as usize,
                    problem: Problem::Duplicate,
                },
            )
        } else {
            match facet {
                Facet::Retry => match retry_attr(arguments) {
                    Ok(retry) => Ok(PolicyAttrs { retry: Some(retry), ..self }),
                    Err(error) => Err(error),
                },
                Facet::Timeout => match timeout_attr(arguments) {
                    Ok(ms) => Ok(PolicyAttrs { timeout_ms: Some(ms), ..self }),
                    Err(error) => Err(error),
                },
                Facet::Fallback => match fallback_attr(arguments) {
                    Ok(method) => Ok(PolicyAttrs { fallback_method: Some(method), ..self }),
                    Err(error) => Err(error),
                },
                Facet::CircuitBreaker => match circuit_breaker_attr(arguments) {
                    Ok(circuit) => Ok(PolicyAttrs { circuit_breaker: Some(circuit), ..self }),
                    Err(error) => Err(error),
                },
                Facet::Bulkhead => match bulkhead_attr(arguments) {
                    Ok(bulkhead) => Ok(PolicyAttrs { bulkhead: Some(bulkhead), ..self }),
                    Err(error) => Err(error),
                },
            }
        }
    }

    /// Whether any policy is asked for.
    pub open spec fn enabled(self) -> bool {
        exists|facet: Facet| self.has(facet)
    }

    /// Whether any policy is asked for.
    pub fn is_enabled(&self) -> (enabled: bool)
        ensures
            enabled == self.enabled(),
    {
        proof {
            assert(self.has(Facet::Retry) ==> self.enabled());
            assert(self.has(Facet::Timeout) ==> self.enabled());
            assert(self.has(Facet::Fallback) ==> self.enabled());
            assert(self.has(Facet::CircuitBreaker) ==> self.enabled());
            assert(self.has(Facet::Bulkhead) ==> self.enabled());
        }
        self.retry.is_some() || self.timeout_ms.is_some() || self.fallback_method.is_some()
            || self.circuit_breaker.is_some() || self.bulkhead.is_some()
    }

    /// Adds one more attribute.
    fn add(self, facet: Facet, arguments: &Arguments) -> (policy: Result<
        PolicyAttrs,
        ArgumentError,
    >)
        ensures
            policy == self.with(facet, *arguments),
    {
        let duplicate = match facet {
            Facet::Retry => self.retry.is_some(),
            Facet::Timeout => self.timeout_ms.is_some(),
            Facet::Fallback => self.fallback_method.is_some(),
            Facet::CircuitBreaker => self.circuit_breaker.is_some(),
            Facet::Bulkhead => self.bulkhead.is_some(),
        };
        reject_duplicate(duplicate, arguments)?;
        match facet {
            Facet::Retry => {
                let retry = parse_retry_attr(arguments)?;
                Ok(PolicyAttrs { retry: Some(retry), ..self })
            },
            Facet::Timeout => {
                let timeout_ms = parse_timeout_attr(arguments)?;
                Ok(PolicyAttrs { timeout_ms: Some(timeout_ms), ..self })
            },
            Facet::Fallback => {
                let method = parse_fallback_attr(arguments)?;
                Ok(PolicyAttrs { fallback_method: Some(method), ..self })
            },
            Facet::CircuitBreaker => {
                let circuit_breaker = parse_circuit_breaker_attr(arguments)?;
                Ok(PolicyAttrs { circuit_breaker: Some(circuit_breaker), ..self })
            },
            Facet::Bulkhead => {
                let bulkhead = parse_bulkhead_attr(arguments)?;
                Ok(PolicyAttrs { bulkhead: Some(bulkhead), ..self })
            },
        }
    }
}

/// Turns away an attribute that the method has already.
pub fn reject_duplicate(seen: bool, arguments: &Arguments) -> (checked: Result<(), ArgumentError>)
    ensures
        checked is Ok <==> !seen,
        checked matches Err(error) ==> error == (ArgumentError {
            argument: arguments.list@.len() as usize,
            problem: Problem::Duplicate,
        }),
{
    if seen {
        Err(ArgumentError { argument: arguments.list.len(), problem: Problem::Duplicate })
    } else {
        Ok(())
    }
}

/// The policies that attributes from a position on ask for, on top of those of
/// the attributes before, or the first thing that is wrong with them.
pub open spec fn policy_from(attributes: Seq<Attribute>, from: nat, before: PolicyAttrs) -> Result<
    PolicyAttrs,
    AttributeError,
>
    decreases attributes.len() - from,
{
    if from >= attributes.len() {
        Ok(before)
    } else {
        match attributes[from as int].asks_for() {
            None => policy_from(attributes, from + 1, before),
            Some(facet) => match before.with(facet, attributes[from as int].arguments) {
                Ok(policy) => policy_from(attributes, from + 1, policy),
                Err(error) => Err(AttributeError { attribute: from as usize, facet, error }),
            },
        }
    }
}

/// The policies that attributes ask for, or the first thing that is wrong with
/// them.
pub open spec fn policy_of(attributes: Seq<Attribute>) -> Result<PolicyAttrs, AttributeError> {
    policy_from(attributes, 0, no_attrs())
}

/// The positions of the first `count` attributes that ask for no policy.
pub open spec fn retained(attributes: Seq<Attribute>, count: nat) -> Seq<usize>
    decreases count,
{
    if count == 0 {
        Seq::empty()
    } else {
        let before = retained(attributes, (count - 1) as nat);
        if attributes[count - 1].asks_for() is None {
            before.push((count - 1) as usize)
        } else {
            before
        }
    }
}

/// Reads the policies that the attributes of a method ask for, and lists the
/// attributes that stay with the method, by position.
pub fn take_policy_attrs(attributes: &Vec<Attribute>) -> (taken: Result<
    (PolicyAttrs, Vec<usize>),
    AttributeError,
>)
    ensures
        match taken {
            Ok((policy, positions)) => {
                &&& policy_of(attributes@) == Ok::<PolicyAttrs, AttributeError>(policy)
                &&& positions@ == retained(attributes@, attributes@.len())
            },
            Err(error) => policy_of(attributes@) == Err::<PolicyAttrs, AttributeError>(error),
        },
{
    let mut policy = PolicyAttrs {
        retry: None,
        timeout_ms: None,
        fallback_method: None,
        circuit_breaker: None,
        bulkhead: None,
    };
    let mut positions: Vec<usize> = Vec::new();
    let mut next: usize = 0;
    while next < attributes.len()
        invariant
            next <= attributes@.len(),
            policy_of(attributes@) == policy_from(attributes@, next as nat, policy),
            positions@ == retained(attributes@, next as nat),
        decreases attributes@.len() - next,
    {
        let attribute = &attributes[next];
        match attribute.facet() {
            Some(facet) => {
                policy = match policy.add(facet, &attribute.arguments) {
                    Ok(policy) => policy,
                    Err(error) => {
                        return Err(AttributeError { attribute: next, facet, error });
                    },
                };
            },
            None => {
                positions.push(next);
            },
        }
        next = next + 1;
    }
    Ok((policy, positions))
}

/// Whether an attribute from a position on asks for a policy.
pub open spec fn asked_from(attributes: Seq<Attribute>, from: nat, facet: Facet) -> bool {
    exists|i: int|
        from <= i < attributes.len() && #[trigger] attributes[i].asks_for() == Some(facet)
}

/// The policies of the attributes from a position on.
proof fn lemma_policy_from(attributes: Seq<Attribute>, from: nat, before: PolicyAttrs)
    requires
        policy_from(attributes, from, before) is Ok,
    ensures
        forall|facet: Facet| #[trigger]
            policy_from(attributes, from, before)->Ok_0.has(facet) <==> before.has(facet)
                || asked_from(attributes, from, facet),
        forall|i: int, facet: Facet|
            from <= i < attributes.len() && #[trigger] attributes[i].asks_for() == Some(facet)
                ==> !#[trigger] before.has(facet),
        forall|i: int, j: int|
            from <= i < j < attributes.len() && #[trigger] attributes[i].asks_for() is Some
                ==> #[trigger] attributes[j].asks_for() != attributes[i].asks_for(),
    decreases attributes.len() - from,
{
    if from < attributes.len() {
        let next = match attributes[from as int].asks_for() {
            None => before,
            Some(facet) => before.with(facet, attributes[from as int].arguments)->Ok_0,
        };
        lemma_policy_from(attributes, from + 1, next);
        assert forall|facet: Facet| #[trigger]
            policy_from(attributes, from, before)->Ok_0.has(facet) <==> before.has(facet)
                || asked_from(attributes, from, facet) by {
            assert(policy_from(attributes, from + 1, next)->Ok_0.has(facet) <==> next.has(facet)
                || asked_from(attributes, from + 1, facet));
            if asked_from(attributes, from, facet) && !asked_from(attributes, from + 1, facet) {
                assert(attributes[from as int].asks_for() == Some(facet));
            }
        }
        assert forall|i: int, facet: Facet|
            from <= i < attributes.len() && #[trigger] attributes[i].asks_for() == Some(
                facet,
            ) implies !#[trigger] before.has(facet) by {
            assert(i > from ==> !next.has(facet));
        }
        assert forall|i: int, j: int|
            from <= i < j < attributes.len() && #[trigger] attributes[i].asks_for() is Some
                implies #[trigger] attributes[j].asks_for() != attributes[i].asks_for() by {
            if i == from && attributes[j].asks_for() == attributes[i].asks_for() {
                let facet = attributes[i].asks_for()->0;
                assert(next.has(facet));
            }
        }
    }
}

/// Where attributes are understood, they ask for a policy exactly where one of
/// them does, and no two of them ask for the same one: a second attribute of a
/// kind is an error, wherever it stands.
pub proof fn law_each_policy_is_asked_for_once(attributes: Seq<Attribute>)
    requires
        policy_of(attributes) is Ok,
    ensures
        forall|facet: Facet| #[trigger]
            policy_of(attributes)->Ok_0.has(facet) <==> asked_from(attributes, 0, facet),
        forall|i: int, j: int|
            0 <= i < j < attributes.len() && #[trigger] attributes[i].asks_for() is Some
                ==> #[trigger] attributes[j].asks_for() != attributes[i].asks_for(),
{
    lemma_policy_from(attributes, 0, no_attrs());
}

/// Attributes that ask for no policy leave the policies as they are.
proof fn lemma_nothing_asked(attributes: Seq<Attribute>, from: nat, before: PolicyAttrs)
    requires
        forall|i: int|
            from <= i < attributes.len() ==> #[trigger] attributes[i].asks_for() is None,
    ensures
        policy_from(attributes, from, before) == Ok::<PolicyAttrs, AttributeError>(before),
    decreases attributes.len() - from,
{
    if from < attributes.len() {
        lemma_nothing_asked(attributes, from + 1, before);
    }
}

/// Attributes are understood and ask for nothing exactly where none of them asks
/// for a policy.
pub proof fn law_nothing_asked_enables_nothing(attributes: Seq<Attribute>)
    ensures
        (policy_of(attributes) matches Ok(policy) && !policy.enabled()) <==> forall|i: int|
            0 <= i < attributes.len() ==> #[trigger] attributes[i].asks_for() is None,
{
    if forall|i: int|
        0 <= i < attributes.len() ==> #[trigger] attributes[i].asks_for() is None {
        lemma_nothing_asked(attributes, 0, no_attrs());
    } else if policy_of(attributes) is Ok {
        law_each_policy_is_asked_for_once(attributes);
        let i = choose|i: int|
            0 <= i < attributes.len() && #[trigger] attributes[i].asks_for() is Some;
        let facet = attributes[i].asks_for()->0;
        assert(asked_from(attributes, 0, facet));
        assert(policy_of(attributes)->Ok_0.has(facet));
    }
}

/// The attributes that stay with a method are those that ask for no policy, each
/// once and in order.
pub proof fn law_other_attributes_are_kept(attributes: Seq<Attribute>, count: nat)
    requires
        count <= attributes.len() <= usize::MAX,
    ensures
        forall|i: int|
            0 <= i < retained(attributes, count).len() ==> #[trigger] retained(attributes, count)[i]
                < count && attributes[retained(attributes, count)[i] as int].asks_for() is None,
        forall|i: int, j: int|
            0 <= i < j < retained(attributes, count).len() ==> #[trigger] retained(
                attributes,
                count,
            )[i] < #[trigger] retained(attributes, count)[j],
        forall|position: usize|
            position < count && #[trigger] attributes[position as int].asks_for() is None
                ==> retained(attributes, count).contains(position),
    decreases count,
{
    if count > 0 {
        let before = retained(attributes, (count - 1) as nat);
        law_other_attributes_are_kept(attributes, (count - 1) as nat);
        assert forall|position: usize|
            position < count && #[trigger] attributes[position as int].asks_for() is None
                implies retained(attributes, count).contains(position) by {
            if position < count - 1 {
                let i = choose|i: int| 0 <= i < before.len() && before[i] == position;
                assert(before.contains(position));
                assert(retained(attributes, count)[i] == position);
            } else {
                assert(retained(attributes, count).last() == position);
            }
        }
    }
}

} // verus!
