//! What the attributes of a method say, told from their names and arguments.

use vstd::arithmetic::power::{lemma_pow0, lemma_pow1, lemma_pow_adds, pow};
use vstd::prelude::*;

use crate::attribute::{
    argument_setting, bulkhead_attr, bulkhead_setting, circuit_breaker_attr,
    circuit_breaker_settings, decimal, fallback_attr, fallback_setting, integer_value, is_digit,
    is_policy_attr, law_other_attributes_are_kept, no_attrs, parse_argument, parse_bulkhead_attr,
    parse_circuit_breaker_attr, parse_failure_ratio, parse_fallback_attr, parse_lit_int,
    parse_retry_attr, parse_text, parse_timeout_attr, parse_u64, policy_from, policy_of,
    ratio_value, reject_duplicate, retry_attr, retry_settings, settings, settings_from,
    take_policy_attrs, text_value, timeout_attr, timeout_setting, Argument, ArgumentError,
    Arguments, Attribute, AttributeError, BulkheadAttr, CircuitBreakerAttr, Facet, PolicyAttrs,
    Problem, RetryAttr, Setting, Value,
};
use crate::ratio::{clamped, ONE_BITS};

verus! {

/// Digits write a number place by place: those behind count as they are, those in
/// front ten times as much for each place behind them, and one digit is worth its
/// distance from zero.
pub proof fn law_digits_write_a_number(front: Seq<u8>, back: Seq<u8>, digit: u8)
    requires
        is_digit(digit),
    ensures
        decimal(front + back) == decimal(front) * pow(10, back.len()) + decimal(back),
        decimal(seq![digit]) == digit - 0x30,
        decimal(Seq::<u8>::empty()) == 0,
    decreases back.len(),
{
    reveal_with_fuel(decimal, 2);
    assert(seq![digit].drop_last() =~= Seq::<u8>::empty());
    if back.len() == 0 {
        assert(front + back =~= front);
        lemma_pow0(10);
    } else {
        let rest = back.drop_last();
        law_digits_write_a_number(front, rest, digit);
        assert((front + back).drop_last() =~= front + rest);
        lemma_pow_adds(10, rest.len(), 1);
        lemma_pow1(10);
        let power = pow(10, rest.len());
        let number = decimal(front) as int;
        assert(10 * (number * power) == number * (power * 10)) by (nonlinear_arith);
    }
}

/// An integer literal is read where it has digits, nothing else, and they write a
/// number that fits; that number is the result. Else what is wrong is told.
pub proof fn law_integers_are_their_digits(digits: Vec<u8>, number: Result<u64, Problem>)
    requires
        call_ensures(parse_lit_int, (&digits,), number),
    ensures
        match number {
            Ok(number) => {
                &&& digits@.len() > 0
                &&& forall|i: int|
                    0 <= i < digits@.len() ==> 0x30 <= #[trigger] digits@[i] <= 0x39
                &&& number == decimal(digits@)
            },
            Err(Problem::EmptyInteger) => digits@.len() == 0,
            Err(Problem::InvalidDigit) => exists|i: int|
                0 <= i < digits@.len() && !(0x30 <= #[trigger] digits@[i] <= 0x39),
            Err(Problem::IntegerTooLarge) => {
                &&& forall|i: int|
                    0 <= i < digits@.len() ==> 0x30 <= #[trigger] digits@[i] <= 0x39
                &&& decimal(digits@) > u64::MAX
            },
            Err(_) => false,
        },
{
    if number == Err::<u64, Problem>(Problem::InvalidDigit) {
        let i = choose|i: int| 0 <= i < digits@.len() && !is_digit(digits@[i]);
        assert(!(0x30 <= digits@[i] <= 0x39));
    } else {
        assert(forall|i: int|
            0 <= i < digits@.len() && is_digit(digits@[i]) ==> 0x30 <= #[trigger] digits@[i]
                <= 0x39);
    }
}

/// What the kinds of values give. An integer is read from an integer literal alone.
/// A ratio is the number of a float literal, held to the range from 0 to 1, or of
/// an integer literal, which is 0 or at least 1. A text is that of a string literal.
pub proof fn law_what_values_give(
    value: Value,
    number: Result<u64, Problem>,
    ratio: Result<u64, Problem>,
    text: Result<String, Problem>,
)
    requires
        call_ensures(parse_u64, (&value,), number),
        call_ensures(parse_failure_ratio, (&value,), ratio),
        call_ensures(parse_text, (&value,), text),
    ensures
        number == integer_value(value),
        ratio == ratio_value(value),
        text == text_value(value),
        match value {
            Value::Integer(digits) => {
                &&& number matches Ok(n) ==> {
                    &&& digits@.len() > 0
                    &&& n == decimal(digits@)
                    &&& n == 0 ==> ratio == Ok::<u64, Problem>(0)
                    &&& n > 0 ==> ratio == Ok::<u64, Problem>(ONE_BITS)
                }
                &&& number matches Err(problem) ==> ratio == Err::<u64, Problem>(problem)
                &&& (number is Ok <==> digits@.len() > 0 && decimal(digits@) <= u64::MAX && forall|
                    i: int,
                |
                    0 <= i < digits@.len() ==> 0x30 <= #[trigger] digits@[i] <= 0x39)
                &&& text == Err::<String, Problem>(Problem::Malformed)
            },
            Value::Float(bits) => {
                &&& number == Err::<u64, Problem>(Problem::ExpectedInteger)
                &&& ratio == Ok::<u64, Problem>(clamped(bits))
                &&& text == Err::<String, Problem>(Problem::Malformed)
            },
            Value::Text(given) => {
                &&& number == Err::<u64, Problem>(Problem::ExpectedInteger)
                &&& ratio == Err::<u64, Problem>(Problem::ExpectedNumber)
                &&& text == Ok::<String, Problem>(given)
            },
            Value::Other => {
                &&& number == Err::<u64, Problem>(Problem::ExpectedInteger)
                &&& ratio == Err::<u64, Problem>(Problem::ExpectedNumber)
                &&& text == Err::<String, Problem>(Problem::Malformed)
            },
            Value::Malformed => {
                &&& number == Err::<u64, Problem>(Problem::Malformed)
                &&& ratio == Err::<u64, Problem>(Problem::Malformed)
                &&& text == Err::<String, Problem>(Problem::Malformed)
            },
        },
{
    if let Value::Integer(digits) = value {
        assert(forall|i: int|
            0 <= i < digits@.len() ==> (is_digit(digits@[i]) <==> 0x30 <= #[trigger] digits@[i]
                <= 0x39));
    }
}

/// Whether an argument has a name.
pub open spec fn named(argument: Argument, key: Seq<char>) -> bool {
    argument.key matches Some(name) && name@ == key
}

/// Whether an attribute knows an argument.
pub open spec fn known(facet: Facet, argument: Argument) -> bool {
    match facet {
        Facet::Retry => {
            ||| named(argument, "max_retries"@)
            ||| named(argument, "delay_ms"@)
            ||| named(argument, "jitter_ms"@)
            ||| named(argument, "max_duration_ms"@)
        },
        Facet::Timeout => named(argument, "ms"@),
        Facet::Fallback => named(argument, "method"@),
        Facet::CircuitBreaker => {
            ||| named(argument, "request_volume_threshold"@)
            ||| named(argument, "failure_ratio"@)
            ||| named(argument, "delay_ms"@)
        },
        Facet::Bulkhead => named(argument, "max_concurrent"@),
    }
}

/// The names of arguments are different texts.
proof fn lemma_names_differ()
    ensures
        "max_retries"@ != "delay_ms"@,
        "max_retries"@ != "jitter_ms"@,
        "max_retries"@ != "max_duration_ms"@,
        "delay_ms"@ != "jitter_ms"@,
        "delay_ms"@ != "max_duration_ms"@,
        "jitter_ms"@ != "max_duration_ms"@,
        "request_volume_threshold"@ != "failure_ratio"@,
        "request_volume_threshold"@ != "delay_ms"@,
        "failure_ratio"@ != "delay_ms"@,
        "retry"@ != "timeout"@,
        "retry"@ != "fallback"@,
        "retry"@ != "circuit_breaker"@,
        "retry"@ != "bulkhead"@,
        "timeout"@ != "fallback"@,
        "timeout"@ != "circuit_breaker"@,
        "timeout"@ != "bulkhead"@,
        "fallback"@ != "circuit_breaker"@,
        "fallback"@ != "bulkhead"@,
        "circuit_breaker"@ != "bulkhead"@,
{
    reveal_strlit("max_retries");
    reveal_strlit("delay_ms");
    reveal_strlit("jitter_ms");
    reveal_strlit("max_duration_ms");
    reveal_strlit("request_volume_threshold");
    reveal_strlit("failure_ratio");
    reveal_strlit("retry");
    reveal_strlit("timeout");
    reveal_strlit("fallback");
    reveal_strlit("circuit_breaker");
    reveal_strlit("bulkhead");
    assert("retry"@[0] == 'r');
    assert("timeout"@[0] == 't');
    assert("fallback"@[0] == 'f');
    assert("circuit_breaker"@[0] == 'c');
    assert("bulkhead"@[0] == 'b');
    assert("max_retries"@.len() == 11);
    assert("delay_ms"@.len() == 8);
    assert("jitter_ms"@.len() == 9);
    assert("max_duration_ms"@.len() == 15);
    assert("request_volume_threshold"@.len() == 24);
    assert("failure_ratio"@.len() == 13);
}

/// The setting of a number that an argument gives, or what is wrong with it.
pub open spec fn number_setting(
    number: Result<u64, Problem>,
    setting: Result<Setting, Problem>,
    made: spec_fn(u64) -> Setting,
) -> bool {
    match number {
        Ok(number) => setting == Ok::<Setting, Problem>(made(number)),
        Err(problem) => setting == Err::<Setting, Problem>(problem),
    }
}

/// Every argument that an attribute knows sets the setting of its name to its
/// value, and fails as its value does. An argument that the attribute does not know
/// is told to be unknown, whatever its value.
pub proof fn law_arguments_set_what_they_name(
    facet: Facet,
    argument: Argument,
    setting: Result<Setting, Problem>,
)
    requires
        call_ensures(parse_argument, (facet, &argument), setting),
    ensures
        setting == argument_setting(facet, argument),
        !known(facet, argument) ==> setting == Err::<Setting, Problem>(Problem::UnknownKey),
        facet is Retry && named(argument, "max_retries"@) ==> number_setting(
            integer_value(argument.value),
            setting,
            |n: u64| Setting::MaxRetries(n),
        ),
        facet is Retry && named(argument, "delay_ms"@) ==> number_setting(
            integer_value(argument.value),
            setting,
            |n: u64| Setting::DelayMs(n),
        ),
        facet is Retry && named(argument, "jitter_ms"@) ==> number_setting(
            integer_value(argument.value),
            setting,
            |n: u64| Setting::JitterMs(n),
        ),
        facet is Retry && named(argument, "max_duration_ms"@) ==> number_setting(
            integer_value(argument.value),
            setting,
            |n: u64| Setting::MaxDurationMs(n),
        ),
        facet is Timeout && named(argument, "ms"@) ==> number_setting(
            integer_value(argument.value),
            setting,
            |n: u64| Setting::Ms(n),
        ),
        facet is Fallback && named(argument, "method"@) ==> match text_value(argument.value) {
            Ok(text) => setting == Ok::<Setting, Problem>(Setting::Method(text)),
            Err(problem) => setting == Err::<Setting, Problem>(problem),
        },
        facet is CircuitBreaker && named(argument, "request_volume_threshold"@) ==> number_setting(
            integer_value(argument.value),
            setting,
            |n: u64| Setting::RequestVolumeThreshold(n),
        ),
        facet is CircuitBreaker && named(argument, "failure_ratio"@) ==> number_setting(
            ratio_value(argument.value),
            setting,
            |bits: u64| Setting::FailureRatio(bits),
        ),
        facet is CircuitBreaker && named(argument, "delay_ms"@) ==> number_setting(
            integer_value(argument.value),
            setting,
            |n: u64| Setting::DelayMs(n),
        ),
        facet is Bulkhead && named(argument, "max_concurrent"@) ==> number_setting(
            integer_value(argument.value),
            setting,
            |n: u64| Setting::MaxConcurrent(n),
        ),
{
    lemma_names_differ();
}

/// The arguments of an attribute are understood where all are there and each is
/// understood; each then gives one setting, at its place. Else the first one that is
/// not understood is told, or that the list breaks off behind the last.
pub proof fn law_all_arguments_are_read(facet: Facet, arguments: Arguments)
    requires
        arguments.list@.len() <= usize::MAX,
    ensures
        match settings(facet, arguments) {
            Ok(settings) => {
                &&& arguments.complete
                &&& settings.len() == arguments.list@.len()
                &&& forall|i: int|
                    0 <= i < arguments.list@.len() ==> argument_setting(
                        facet,
                        #[trigger] arguments.list@[i],
                    ) == Ok::<Setting, Problem>(settings[i])
            },
            Err(error) => {
                &&& error.argument <= arguments.list@.len()
                &&& forall|i: int|
                    0 <= i < error.argument ==> argument_setting(
                        facet,
                        #[trigger] arguments.list@[i],
                    ) is Ok
                &&& if error.argument < arguments.list@.len() {
                    argument_setting(facet, arguments.list@[error.argument as int]) == Err::<
                        Setting,
                        Problem,
                    >(error.problem)
                } else {
                    !arguments.complete && error.problem == Problem::Malformed
                }
            },
        },
{
    lemma_settings_from(facet, arguments, 0);
}

proof fn lemma_settings_from(facet: Facet, arguments: Arguments, from: nat)
    requires
        from <= arguments.list@.len() <= usize::MAX,
    ensures
        match settings_from(facet, arguments, from) {
            Ok(settings) => {
                &&& arguments.complete
                &&& settings.len() == arguments.list@.len() - from
                &&& forall|i: int|
                    from <= i < arguments.list@.len() ==> argument_setting(
                        facet,
                        #[trigger] arguments.list@[i],
                    ) == Ok::<Setting, Problem>(settings[i - from])
            },
            Err(error) => {
                &&& from <= error.argument <= arguments.list@.len()
                &&& forall|i: int|
                    from <= i < error.argument ==> argument_setting(
                        facet,
                        #[trigger] arguments.list@[i],
                    ) is Ok
                &&& if error.argument < arguments.list@.len() {
                    argument_setting(facet, arguments.list@[error.argument as int]) == Err::<
                        Setting,
                        Problem,
                    >(error.problem)
                } else {
                    !arguments.complete && error.problem == Problem::Malformed
                }
            },
        },
    decreases arguments.list@.len() - from,
{
    if from < arguments.list@.len() {
        lemma_settings_from(facet, arguments, from + 1);
    }
}

/// Whether a field is that of the last setting that gives one, and empty where none
/// does.
pub open spec fn last_given<A, V>(
    list: Seq<A>,
    gives: spec_fn(A) -> Option<V>,
    field: Option<V>,
) -> bool {
    match field {
        Some(value) => exists|i: int|
            {
                &&& 0 <= i < list.len()
                &&& gives(#[trigger] list[i]) == Some(value)
                &&& forall|j: int| i < j < list.len() ==> gives(#[trigger] list[j]) is None
            },
        None => forall|i: int| 0 <= i < list.len() ==> gives(#[trigger] list[i]) is None,
    }
}

/// One more setting takes the place of the field where it gives one, and leaves it
/// where it does not.
proof fn lemma_last_given<A, V>(
    list: Seq<A>,
    gives: spec_fn(A) -> Option<V>,
    before: Option<V>,
    field: Option<V>,
)
    requires
        list.len() > 0,
        last_given(list.drop_last(), gives, before),
        field == match gives(list.last()) {
            Some(value) => Some(value),
            None => before,
        },
    ensures
        last_given(list, gives, field),
{
    let rest = list.drop_last();
    match gives(list.last()) {
        Some(value) => {
            assert(gives(list[list.len() - 1]) == Some(value));
        },
        None => {
            if let Some(value) = before {
                let i = choose|i: int|
                    {
                        &&& 0 <= i < rest.len()
                        &&& gives(#[trigger] rest[i]) == Some(value)
                        &&& forall|j: int| i < j < rest.len() ==> gives(#[trigger] rest[j]) is None
                    };
                assert(gives(list[i]) == Some(value));
                assert forall|j: int| i < j < list.len() implies gives(
                    #[trigger] list[j],
                ) is None by {
                    if j < rest.len() {
                        assert(gives(rest[j]) is None);
                    }
                }
            } else {
                assert forall|j: int| 0 <= j < list.len() implies gives(
                    #[trigger] list[j],
                ) is None by {
                    if j < rest.len() {
                        assert(gives(rest[j]) is None);
                    }
                }
            }
        },
    }
}

/// A list that gives at each place what another does has the same last one.
proof fn lemma_same_last<A, B, V>(
    list: Seq<A>,
    gives: spec_fn(A) -> Option<V>,
    other: Seq<B>,
    other_gives: spec_fn(B) -> Option<V>,
    field: Option<V>,
)
    requires
        list.len() == other.len(),
        forall|i: int|
            0 <= i < list.len() ==> gives(#[trigger] list[i]) == other_gives(other[i]),
        last_given(other, other_gives, field),
    ensures
        last_given(list, gives, field),
{
    match field {
        Some(value) => {
            let i = choose|i: int|
                {
                    &&& 0 <= i < other.len()
                    &&& other_gives(#[trigger] other[i]) == Some(value)
                    &&& forall|j: int|
                        i < j < other.len() ==> other_gives(#[trigger] other[j]) is None
                };
            assert(gives(list[i]) == Some(value));
            assert forall|j: int| i < j < list.len() implies gives(#[trigger] list[j]) is None by {
                assert(other_gives(other[j]) is None);
            }
        },
        None => {
            assert forall|j: int| 0 <= j < list.len() implies gives(#[trigger] list[j]) is None by {
                assert(other_gives(other[j]) is None);
            }
        },
    }
}

/// The number that an argument of the given name gives.
pub open spec fn number_named(key: Seq<char>) -> spec_fn(Argument) -> Option<u64> {
    |argument: Argument|
        if named(argument, key) {
            Some(integer_value(argument.value)->Ok_0)
        } else {
            None
        }
}

/// The ratio that an argument of the given name gives.
pub open spec fn ratio_named(key: Seq<char>) -> spec_fn(Argument) -> Option<u64> {
    |argument: Argument|
        if named(argument, key) {
            Some(ratio_value(argument.value)->Ok_0)
        } else {
            None
        }
}

/// The text that an argument of the given name gives.
pub open spec fn text_named(key: Seq<char>) -> spec_fn(Argument) -> Option<String> {
    |argument: Argument|
        if named(argument, key) {
            Some(text_value(argument.value)->Ok_0)
        } else {
            None
        }
}

/// Whether every argument is there, known to the attribute, and has a value of the
/// kind that it needs.
pub open spec fn all_fit(facet: Facet, arguments: Arguments) -> bool {
    &&& arguments.complete
    &&& forall|i: int|
        0 <= i < arguments.list@.len() ==> {
            let argument = #[trigger] arguments.list@[i];
            &&& known(facet, argument)
            &&& if facet is Fallback {
                text_value(argument.value) is Ok
            } else if facet is CircuitBreaker && named(argument, "failure_ratio"@) {
                ratio_value(argument.value) is Ok
            } else {
                integer_value(argument.value) is Ok
            }
        }
}

/// Arguments are understood exactly where they all fit.
proof fn lemma_understood(facet: Facet, arguments: Arguments)
    requires
        arguments.list@.len() <= usize::MAX,
    ensures
        settings(facet, arguments) is Ok <==> all_fit(facet, arguments),
{
    lemma_names_differ();
    law_all_arguments_are_read(facet, arguments);
    if all_fit(facet, arguments) && settings(facet, arguments) is Err {
        let error = settings(facet, arguments)->Err_0;
        assert(known(facet, arguments.list@[error.argument as int]));
    }
    if settings(facet, arguments) is Ok {
        assert forall|i: int| 0 <= i < arguments.list@.len() implies {
            let argument = #[trigger] arguments.list@[i];
            &&& known(facet, argument)
            &&& if facet is Fallback {
                text_value(argument.value) is Ok
            } else if facet is CircuitBreaker && named(argument, "failure_ratio"@) {
                ratio_value(argument.value) is Ok
            } else {
                integer_value(argument.value) is Ok
            }
        } by {
            let argument = arguments.list@[i];
            assert(argument_setting(facet, argument) is Ok);
        }
    }
}

spec fn gives_max_retries() -> spec_fn(Setting) -> Option<u64> {
    |setting: Setting|
        match setting {
            Setting::MaxRetries(n) => Some(n),
            _ => None,
        }
}

spec fn gives_delay() -> spec_fn(Setting) -> Option<u64> {
    |setting: Setting|
        match setting {
            Setting::DelayMs(n) => Some(n),
            _ => None,
        }
}

spec fn gives_jitter() -> spec_fn(Setting) -> Option<u64> {
    |setting: Setting|
        match setting {
            Setting::JitterMs(n) => Some(n),
            _ => None,
        }
}

spec fn gives_max_duration() -> spec_fn(Setting) -> Option<u64> {
    |setting: Setting|
        match setting {
            Setting::MaxDurationMs(n) => Some(n),
            _ => None,
        }
}

spec fn gives_ms() -> spec_fn(Setting) -> Option<u64> {
    |setting: Setting|
        match setting {
            Setting::Ms(n) => Some(n),
            _ => None,
        }
}

spec fn gives_method() -> spec_fn(Setting) -> Option<String> {
    |setting: Setting|
        match setting {
            Setting::Method(name) => Some(name),
            _ => None,
        }
}

spec fn gives_threshold() -> spec_fn(Setting) -> Option<u64> {
    |setting: Setting|
        match setting {
            Setting::RequestVolumeThreshold(n) => Some(n),
            _ => None,
        }
}

spec fn gives_ratio() -> spec_fn(Setting) -> Option<u64> {
    |setting: Setting|
        match setting {
            Setting::FailureRatio(bits) => Some(bits),
            _ => None,
        }
}

spec fn gives_max_concurrent() -> spec_fn(Setting) -> Option<u64> {
    |setting: Setting|
        match setting {
            Setting::MaxConcurrent(n) => Some(n),
            _ => None,
        }
}

/// Each field is that of the last setting of its kind.
proof fn lemma_last_settings(settings: Seq<Setting>)
    ensures
        last_given(settings, gives_max_retries(), retry_settings(settings).max_retries),
        last_given(settings, gives_delay(), retry_settings(settings).delay_ms),
        last_given(settings, gives_jitter(), retry_settings(settings).jitter_ms),
        last_given(settings, gives_max_duration(), retry_settings(settings).max_duration_ms),
        last_given(settings, gives_ms(), timeout_setting(settings)),
        last_given(settings, gives_method(), fallback_setting(settings)),
        last_given(
            settings,
            gives_threshold(),
            circuit_breaker_settings(settings).request_volume_threshold,
        ),
        last_given(settings, gives_ratio(), circuit_breaker_settings(settings).failure_ratio),
        last_given(settings, gives_delay(), circuit_breaker_settings(settings).delay_ms),
        last_given(settings, gives_max_concurrent(), bulkhead_setting(settings)),
    decreases settings.len(),
{
    if settings.len() > 0 {
        let rest = settings.drop_last();
        lemma_last_settings(rest);
        let retry = retry_settings(settings);
        let retry_before = retry_settings(rest);
        lemma_last_given(
            settings,
            gives_max_retries(),
            retry_before.max_retries,
            retry.max_retries,
        );
        lemma_last_given(settings, gives_delay(), retry_before.delay_ms, retry.delay_ms);
        lemma_last_given(settings, gives_jitter(), retry_before.jitter_ms, retry.jitter_ms);
        lemma_last_given(
            settings,
            gives_max_duration(),
            retry_before.max_duration_ms,
            retry.max_duration_ms,
        );
        lemma_last_given(settings, gives_ms(), timeout_setting(rest), timeout_setting(settings));
        lemma_last_given(
            settings,
            gives_method(),
            fallback_setting(rest),
            fallback_setting(settings),
        );
        let circuit = circuit_breaker_settings(settings);
        let circuit_before = circuit_breaker_settings(rest);
        lemma_last_given(
            settings,
            gives_threshold(),
            circuit_before.request_volume_threshold,
            circuit.request_volume_threshold,
        );
        lemma_last_given(
            settings,
            gives_ratio(),
            circuit_before.failure_ratio,
            circuit.failure_ratio,
        );
        lemma_last_given(settings, gives_delay(), circuit_before.delay_ms, circuit.delay_ms);
        lemma_last_given(
            settings,
            gives_max_concurrent(),
            bulkhead_setting(rest),
            bulkhead_setting(settings),
        );
    }
}

/// Whether an error is about the first argument that is not understood, or about the
/// end of a list that breaks off behind arguments that are.
pub open spec fn is_first_wrong(facet: Facet, arguments: Arguments, error: ArgumentError) -> bool {
    &&& error.argument <= arguments.list@.len()
    &&& forall|i: int|
        0 <= i < error.argument ==> argument_setting(facet, #[trigger] arguments.list@[i]) is Ok
    &&& if error.argument < arguments.list@.len() {
        argument_setting(facet, arguments.list@[error.argument as int]) == Err::<Setting, Problem>(
            error.problem,
        )
    } else {
        !arguments.complete && error.problem is Malformed
    }
}

/// Every argument of `#[retry]` sets its own field and no other: a field has the
/// number of the last argument of its name, wherever arguments of other names
/// stand, and is empty exactly where no argument has that name. The attribute is
/// understood exactly where all its arguments fit; else the first that does not is
/// told.
pub proof fn law_retry_arguments_set_their_fields(
    arguments: Arguments,
    read: Result<RetryAttr, ArgumentError>,
)
    requires
        arguments.list@.len() <= usize::MAX,
        call_ensures(parse_retry_attr, (&arguments,), read),
    ensures
        read is Ok <==> all_fit(Facet::Retry, arguments),
        read matches Err(error) ==> is_first_wrong(Facet::Retry, arguments, error),
        read matches Ok(retry) ==> {
            let list = arguments.list@;
            &&& last_given(list, number_named("max_retries"@), retry.max_retries)
            &&& last_given(list, number_named("delay_ms"@), retry.delay_ms)
            &&& last_given(list, number_named("jitter_ms"@), retry.jitter_ms)
            &&& last_given(list, number_named("max_duration_ms"@), retry.max_duration_ms)
        },
{
    lemma_names_differ();
    lemma_understood(Facet::Retry, arguments);
    law_all_arguments_are_read(Facet::Retry, arguments);
    if let Ok(given) = settings(Facet::Retry, arguments) {
        let list = arguments.list@;
        lemma_last_settings(given);
        let retry = retry_settings(given);
        assert forall|i: int| 0 <= i < list.len() implies {
            &&& number_named("max_retries"@)(#[trigger] list[i]) == gives_max_retries()(given[i])
            &&& number_named("delay_ms"@)(list[i]) == gives_delay()(given[i])
            &&& number_named("jitter_ms"@)(list[i]) == gives_jitter()(given[i])
            &&& number_named("max_duration_ms"@)(list[i]) == gives_max_duration()(given[i])
        } by {
            assert(argument_setting(Facet::Retry, list[i]) == Ok::<Setting, Problem>(given[i]));
        }
        lemma_same_last(
            list,
            number_named("max_retries"@),
            given,
            gives_max_retries(),
            retry.max_retries,
        );
        lemma_same_last(list, number_named("delay_ms"@), given, gives_delay(), retry.delay_ms);
        lemma_same_last(list, number_named("jitter_ms"@), given, gives_jitter(), retry.jitter_ms);
        lemma_same_last(
            list,
            number_named("max_duration_ms"@),
            given,
            gives_max_duration(),
            retry.max_duration_ms,
        );
    }
}

/// Every argument of `#[circuit_breaker]` sets its own field and no other, as those
/// of `#[retry]` do.
pub proof fn law_circuit_breaker_arguments_set_their_fields(
    arguments: Arguments,
    read: Result<CircuitBreakerAttr, ArgumentError>,
)
    requires
        arguments.list@.len() <= usize::MAX,
        call_ensures(parse_circuit_breaker_attr, (&arguments,), read),
    ensures
        read is Ok <==> all_fit(Facet::CircuitBreaker, arguments),
        read matches Err(error) ==> is_first_wrong(Facet::CircuitBreaker, arguments, error),
        read matches Ok(circuit) ==> {
            let list = arguments.list@;
            &&& last_given(
                list,
                number_named("request_volume_threshold"@),
                circuit.request_volume_threshold,
            )
            &&& last_given(list, ratio_named("failure_ratio"@), circuit.failure_ratio)
            &&& last_given(list, number_named("delay_ms"@), circuit.delay_ms)
        },
{
    lemma_names_differ();
    lemma_understood(Facet::CircuitBreaker, arguments);
    law_all_arguments_are_read(Facet::CircuitBreaker, arguments);
    if let Ok(given) = settings(Facet::CircuitBreaker, arguments) {
        let list = arguments.list@;
        lemma_last_settings(given);
        let circuit = circuit_breaker_settings(given);
        assert forall|i: int| 0 <= i < list.len() implies {
            &&& number_named("request_volume_threshold"@)(#[trigger] list[i])
                == gives_threshold()(given[i])
            &&& ratio_named("failure_ratio"@)(list[i]) == gives_ratio()(given[i])
            &&& number_named("delay_ms"@)(list[i]) == gives_delay()(given[i])
        } by {
            assert(argument_setting(Facet::CircuitBreaker, list[i]) == Ok::<Setting, Problem>(
                given[i],
            ));
        }
        lemma_same_last(
            list,
            number_named("request_volume_threshold"@),
            given,
            gives_threshold(),
            circuit.request_volume_threshold,
        );
        lemma_same_last(
            list,
            ratio_named("failure_ratio"@),
            given,
            gives_ratio(),
            circuit.failure_ratio,
        );
        lemma_same_last(list, number_named("delay_ms"@), given, gives_delay(), circuit.delay_ms);
    }
}

/// `#[timeout]`, `#[fallback]` and `#[bulkhead]` give what the last argument of
/// their name gives. They need one: where all arguments fit and none has that name,
/// that is what is wrong.
pub proof fn law_needed_arguments_are_given(
    arguments: Arguments,
    timeout: Result<u64, ArgumentError>,
    fallback: Result<String, ArgumentError>,
    bulkhead: Result<BulkheadAttr, ArgumentError>,
)
    requires
        arguments.list@.len() <= usize::MAX,
        call_ensures(parse_timeout_attr, (&arguments,), timeout),
        call_ensures(parse_fallback_attr, (&arguments,), fallback),
        call_ensures(parse_bulkhead_attr, (&arguments,), bulkhead),
    ensures
        timeout matches Ok(ms) ==> all_fit(Facet::Timeout, arguments) && last_given(
            arguments.list@,
            number_named("ms"@),
            Some(ms),
        ),
        fallback matches Ok(method) ==> all_fit(Facet::Fallback, arguments) && last_given(
            arguments.list@,
            text_named("method"@),
            Some(method),
        ),
        bulkhead matches Ok(bulkhead) ==> all_fit(Facet::Bulkhead, arguments) && last_given(
            arguments.list@,
            number_named("max_concurrent"@),
            Some(bulkhead.max_concurrent),
        ),
        all_fit(Facet::Timeout, arguments) && timeout is Err ==> arguments.list@.len() == 0
            && timeout->Err_0 == (ArgumentError { argument: 0, problem: Problem::Missing }),
        !all_fit(Facet::Timeout, arguments) ==> (timeout matches Err(error) && is_first_wrong(
            Facet::Timeout,
            arguments,
            error,
        )),
        !all_fit(Facet::Fallback, arguments) ==> (fallback matches Err(error) && is_first_wrong(
            Facet::Fallback,
            arguments,
            error,
        )),
        !all_fit(Facet::Bulkhead, arguments) ==> (bulkhead matches Err(error) && is_first_wrong(
            Facet::Bulkhead,
            arguments,
            error,
        )),
        all_fit(Facet::Fallback, arguments) && fallback is Err ==> arguments.list@.len() == 0
            && fallback->Err_0 == (ArgumentError { argument: 0, problem: Problem::Missing }),
        all_fit(Facet::Bulkhead, arguments) && bulkhead is Err ==> arguments.list@.len() == 0
            && bulkhead->Err_0 == (ArgumentError { argument: 0, problem: Problem::Missing }),
{
    let list = arguments.list@;
    lemma_understood(Facet::Timeout, arguments);
    lemma_understood(Facet::Fallback, arguments);
    lemma_understood(Facet::Bulkhead, arguments);
    law_all_arguments_are_read(Facet::Timeout, arguments);
    law_all_arguments_are_read(Facet::Fallback, arguments);
    law_all_arguments_are_read(Facet::Bulkhead, arguments);
    if let Ok(given) = settings(Facet::Timeout, arguments) {
        lemma_last_settings(given);
        assert forall|i: int| 0 <= i < list.len() implies number_named("ms"@)(#[trigger] list[i])
            == gives_ms()(given[i]) by {
            assert(argument_setting(Facet::Timeout, list[i]) == Ok::<Setting, Problem>(given[i]));
        }
        lemma_same_last(
            list,
            number_named("ms"@),
            given,
            gives_ms(),
            timeout_setting(given),
        );
        if list.len() > 0 {
            assert(known(Facet::Timeout, list[0]));
            assert(number_named("ms"@)(list[0]) is Some);
        }
    }
    if let Ok(given) = settings(Facet::Fallback, arguments) {
        lemma_last_settings(given);
        assert forall|i: int| 0 <= i < list.len() implies text_named("method"@)(
            #[trigger] list[i],
        ) == gives_method()(given[i]) by {
            assert(argument_setting(Facet::Fallback, list[i]) == Ok::<Setting, Problem>(given[i]));
        }
        lemma_same_last(
            list,
            text_named("method"@),
            given,
            gives_method(),
            fallback_setting(given),
        );
        if list.len() > 0 {
            assert(known(Facet::Fallback, list[0]));
            assert(text_named("method"@)(list[0]) is Some);
        }
    }
    if let Ok(given) = settings(Facet::Bulkhead, arguments) {
        lemma_last_settings(given);
        assert forall|i: int| 0 <= i < list.len() implies number_named("max_concurrent"@)(
            #[trigger] list[i],
        ) == gives_max_concurrent()(given[i]) by {
            assert(argument_setting(Facet::Bulkhead, list[i]) == Ok::<Setting, Problem>(given[i]));
        }
        lemma_same_last(
            list,
            number_named("max_concurrent"@),
            given,
            gives_max_concurrent(),
            bulkhead_setting(given),
        );
        if list.len() > 0 {
            assert(known(Facet::Bulkhead, list[0]));
            assert(number_named("max_concurrent"@)(list[0]) is Some);
        }
    }
}

/// An attribute asks for a policy by its name, one name for each, and for none by
/// any other name or by a path.
pub proof fn law_names_ask_for_policies(attribute: Attribute, is_policy: bool)
    requires
        call_ensures(is_policy_attr, (&attribute,), is_policy),
    ensures
        is_policy <==> attribute.asks_for() is Some,
        attribute.name is None ==> !is_policy,
        attribute.name matches Some(name) ==> {
            &&& attribute.asks_for() == Some(Facet::Retry) <==> name@ == "retry"@
            &&& attribute.asks_for() == Some(Facet::Timeout) <==> name@ == "timeout"@
            &&& attribute.asks_for() == Some(Facet::Fallback) <==> name@ == "fallback"@
            &&& attribute.asks_for() == Some(Facet::CircuitBreaker) <==> name@
                == "circuit_breaker"@
            &&& attribute.asks_for() == Some(Facet::Bulkhead) <==> name@ == "bulkhead"@
        },
{
    lemma_names_differ();
}

/// Policies are enabled exactly where one of the five was asked for.
pub proof fn law_one_policy_enables(policy: PolicyAttrs, enabled: bool)
    requires
        call_ensures(PolicyAttrs::is_enabled, (&policy,), enabled),
    ensures
        enabled == policy.enabled(),
        enabled <==> policy.retry is Some || policy.timeout_ms is Some
            || policy.fallback_method is Some || policy.circuit_breaker is Some
            || policy.bulkhead is Some,
{
    assert(policy.has(Facet::Retry) <==> policy.retry is Some);
    assert(policy.has(Facet::Timeout) <==> policy.timeout_ms is Some);
    assert(policy.has(Facet::Fallback) <==> policy.fallback_method is Some);
    assert(policy.has(Facet::CircuitBreaker) <==> policy.circuit_breaker is Some);
    assert(policy.has(Facet::Bulkhead) <==> policy.bulkhead is Some);
}

/// What is wrong with the arguments of an attribute that asks for a policy.
pub open spec fn argument_error(facet: Facet, arguments: Arguments) -> Option<ArgumentError> {
    match facet {
        Facet::Retry => match retry_attr(arguments) {
            Ok(_) => None,
            Err(error) => Some(error),
        },
        Facet::Timeout => match timeout_attr(arguments) {
            Ok(_) => None,
            Err(error) => Some(error),
        },
        Facet::Fallback => match fallback_attr(arguments) {
            Ok(_) => None,
            Err(error) => Some(error),
        },
        Facet::CircuitBreaker => match circuit_breaker_attr(arguments) {
            Ok(_) => None,
            Err(error) => Some(error),
        },
        Facet::Bulkhead => match bulkhead_attr(arguments) {
            Ok(_) => None,
            Err(error) => Some(error),
        },
    }
}

/// Whether an attribute before a position asks for a policy.
pub open spec fn asked_before(attributes: Seq<Attribute>, position: int, facet: Facet) -> bool {
    exists|j: int|
        0 <= j < position && j < attributes.len() && #[trigger] attributes[j].asks_for() == Some(
            facet,
        )
}

/// Whether nothing is wrong with the attribute at a position: it asks for no
/// policy, or for one that none before it asks for, with arguments that are
/// understood.
pub open spec fn is_right(attributes: Seq<Attribute>, i: int) -> bool {
    attributes[i].asks_for() matches Some(facet) ==> !asked_before(attributes, i, facet)
        && argument_error(facet, attributes[i].arguments) is None
}

/// Whether a policy has what the attribute at a position asks for.
pub open spec fn has_what_is_asked(policy: PolicyAttrs, attribute: Attribute) -> bool {
    match attribute.asks_for() {
        Some(Facet::Retry) => policy.retry is Some && retry_attr(attribute.arguments) == Ok::<
            RetryAttr,
            ArgumentError,
        >(policy.retry->0),
        Some(Facet::Timeout) => policy.timeout_ms is Some && timeout_attr(attribute.arguments)
            == Ok::<u64, ArgumentError>(policy.timeout_ms->0),
        Some(Facet::Fallback) => policy.fallback_method is Some && fallback_attr(
            attribute.arguments,
        ) == Ok::<String, ArgumentError>(policy.fallback_method->0),
        Some(Facet::CircuitBreaker) => policy.circuit_breaker is Some && circuit_breaker_attr(
            attribute.arguments,
        ) == Ok::<CircuitBreakerAttr, ArgumentError>(policy.circuit_breaker->0),
        Some(Facet::Bulkhead) => policy.bulkhead is Some && bulkhead_attr(attribute.arguments)
            == Ok::<BulkheadAttr, ArgumentError>(policy.bulkhead->0),
        None => true,
    }
}

/// Whether one set of policies keeps all that another has.
spec fn keeps(policy: PolicyAttrs, before: PolicyAttrs) -> bool {
    &&& before.retry is Some ==> policy.retry == before.retry
    &&& before.timeout_ms is Some ==> policy.timeout_ms == before.timeout_ms
    &&& before.fallback_method is Some ==> policy.fallback_method == before.fallback_method
    &&& before.circuit_breaker is Some ==> policy.circuit_breaker == before.circuit_breaker
    &&& before.bulkhead is Some ==> policy.bulkhead == before.bulkhead
}

#[verifier::rlimit(60)]
proof fn lemma_taken_from(attributes: Seq<Attribute>, from: nat, before: PolicyAttrs)
    requires
        from <= attributes.len() <= usize::MAX,
        forall|facet: Facet| #[trigger]
            before.has(facet) <==> asked_before(attributes, from as int, facet),
    ensures
        match policy_from(attributes, from, before) {
            Ok(policy) => {
                &&& forall|i: int| from <= i < attributes.len() ==> #[trigger] is_right(attributes, i)
                &&& forall|i: int|
                    from <= i < attributes.len() ==> has_what_is_asked(
                        policy,
                        #[trigger] attributes[i],
                    )
                &&& forall|facet: Facet| #[trigger]
                    policy.has(facet) <==> asked_before(attributes, attributes.len() as int, facet)
                &&& keeps(policy, before)
            },
            Err(error) => {
                let i = error.attribute as int;
                &&& from <= i < attributes.len()
                &&& forall|j: int| from <= j < i ==> #[trigger] is_right(attributes, j)
                &&& attributes[i].asks_for() == Some(error.facet)
                &&& if asked_before(attributes, i, error.facet) {
                    error.error == (ArgumentError {
                        argument: attributes[i].arguments.list@.len() as usize,
                        problem: Problem::Duplicate,
                    })
                } else {
                    argument_error(error.facet, attributes[i].arguments) == Some(error.error)
                }
            },
        },
    decreases attributes.len() - from,
{
    if from < attributes.len() {
        let attribute = attributes[from as int];
        let next = match attribute.asks_for() {
            None => Some(before),
            Some(facet) => match before.with(facet, attribute.arguments) {
                Ok(policy) => Some(policy),
                Err(_) => None,
            },
        };
        if let Some(next) = next {
            assert forall|facet: Facet| #[trigger] next.has(facet) <==> asked_before(
                attributes,
                from as int + 1,
                facet,
            ) by {
                assert(before.has(facet) <==> asked_before(attributes, from as int, facet));
                if asked_before(attributes, from as int + 1, facet) && !asked_before(
                    attributes,
                    from as int,
                    facet,
                ) {
                    let j = choose|j: int|
                        0 <= j < from + 1 && j < attributes.len()
                            && #[trigger] attributes[j].asks_for() == Some(facet);
                    assert(j == from);
                }
                if asked_before(attributes, from as int, facet) {
                    let j = choose|j: int|
                        0 <= j < from && j < attributes.len()
                            && #[trigger] attributes[j].asks_for() == Some(facet);
                    assert(attributes[j].asks_for() == Some(facet));
                }
                if attribute.asks_for() == Some(facet) {
                    assert(attributes[from as int].asks_for() == Some(facet));
                }
            }
            if let Some(facet) = attribute.asks_for() {
                assert(!before.has(facet));
            }
            assert(is_right(attributes, from as int));
            lemma_taken_from(attributes, from + 1, next);
            if let Ok(policy) = policy_from(attributes, from + 1, next) {
                assert(keeps(policy, next));
                assert(has_what_is_asked(policy, attributes[from as int]));
            }
        } else {
            let facet = attribute.asks_for()->0;
            assert(before.has(facet) <==> asked_before(attributes, from as int, facet));
        }
    } else {
        assert(from == attributes.len());
    }
}

/// What is taken from the attributes of a method. Where nothing is wrong with any of
/// them, each policy that is asked for has the arguments of the attribute that asks
/// for it, and there is no other. Else the first attribute with which something is
/// wrong is told, and what: that its policy was asked for before, or what is wrong
/// with its arguments.
#[verifier::rlimit(60)]
pub proof fn law_policies_come_from_their_attributes(
    attributes: Vec<Attribute>,
    taken: Result<(PolicyAttrs, Vec<usize>), AttributeError>,
)
    requires
        attributes@.len() <= usize::MAX,
        call_ensures(take_policy_attrs, (&attributes,), taken),
    ensures
        match taken {
            Ok((policy, kept)) => {
                &&& policy_of(attributes@) == Ok::<PolicyAttrs, AttributeError>(policy)
                &&& forall|i: int|
                    0 <= i < attributes@.len() ==> #[trigger] is_right(attributes@, i)
                &&& forall|i: int|
                    0 <= i < attributes@.len() ==> has_what_is_asked(
                        policy,
                        #[trigger] attributes@[i],
                    )
                &&& policy.retry is Some <==> asked_before(
                    attributes@,
                    attributes@.len() as int,
                    Facet::Retry,
                )
                &&& policy.timeout_ms is Some <==> asked_before(
                    attributes@,
                    attributes@.len() as int,
                    Facet::Timeout,
                )
                &&& policy.fallback_method is Some <==> asked_before(
                    attributes@,
                    attributes@.len() as int,
                    Facet::Fallback,
                )
                &&& policy.circuit_breaker is Some <==> asked_before(
                    attributes@,
                    attributes@.len() as int,
                    Facet::CircuitBreaker,
                )
                &&& policy.bulkhead is Some <==> asked_before(
                    attributes@,
                    attributes@.len() as int,
                    Facet::Bulkhead,
                )
                &&& forall|i: int|
                    0 <= i < kept@.len() ==> #[trigger] kept@[i] < attributes@.len()
                        && attributes@[kept@[i] as int].asks_for() is None
                &&& forall|i: int, j: int|
                    0 <= i < j < kept@.len() ==> #[trigger] kept@[i] < #[trigger] kept@[j]
                &&& forall|position: usize|
                    position < attributes@.len() && #[trigger] attributes@[position as int].asks_for() is None
                        ==> kept@.contains(position)
            },
            Err(error) => {
                let i = error.attribute as int;
                &&& policy_of(attributes@) == Err::<PolicyAttrs, AttributeError>(error)
                &&& 0 <= i < attributes@.len()
                &&& forall|j: int| 0 <= j < i ==> #[trigger] is_right(attributes@, j)
                &&& attributes@[i].asks_for() == Some(error.facet)
                &&& if asked_before(attributes@, i, error.facet) {
                    error.error == (ArgumentError {
                        argument: attributes@[i].arguments.list@.len() as usize,
                        problem: Problem::Duplicate,
                    })
                } else {
                    argument_error(error.facet, attributes@[i].arguments) == Some(error.error)
                }
            },
        },
{
    assert forall|facet: Facet| #[trigger] no_attrs().has(facet) <==> asked_before(
        attributes@,
        0,
        facet,
    ) by {}
    lemma_taken_from(attributes@, 0, no_attrs());
    law_other_attributes_are_kept(attributes@, attributes@.len());
    if let Ok((policy, kept)) = taken {
        let all = attributes@.len() as int;
        assert(policy.has(Facet::Retry) <==> asked_before(attributes@, all, Facet::Retry));
        assert(policy.has(Facet::Timeout) <==> asked_before(attributes@, all, Facet::Timeout));
        assert(policy.has(Facet::Fallback) <==> asked_before(attributes@, all, Facet::Fallback));
        assert(policy.has(Facet::CircuitBreaker) <==> asked_before(
            attributes@,
            all,
            Facet::CircuitBreaker,
        ));
        assert(policy.has(Facet::Bulkhead) <==> asked_before(attributes@, all, Facet::Bulkhead));
    }
}

/// The policy that an attribute asks for is the one of its name, and none where it has
/// another name or a path for one.
pub proof fn law_attributes_ask_by_name(attribute: Attribute, facet: Option<Facet>)
    requires
        call_ensures(Attribute::facet, (&attribute,), facet),
    ensures
        attribute.name is None ==> facet is None,
        facet matches Some(facet) ==> (attribute.name matches Some(name) && match facet {
            Facet::Retry => name@ == "retry"@,
            Facet::Timeout => name@ == "timeout"@,
            Facet::Fallback => name@ == "fallback"@,
            Facet::CircuitBreaker => name@ == "circuit_breaker"@,
            Facet::Bulkhead => name@ == "bulkhead"@,
        }),
        facet is None ==> (attribute.name matches Some(name) ==> name@ != "retry"@ && name@
            != "timeout"@ && name@ != "fallback"@ && name@ != "circuit_breaker"@ && name@
            != "bulkhead"@),
{
}

/// A second attribute for a policy is turned away as one, and a first one is not. The
/// error stands at the list of arguments, behind all of them.
pub proof fn law_second_attributes_are_turned_away(
    seen: bool,
    arguments: Arguments,
    checked: Result<(), ArgumentError>,
)
    requires
        arguments.list@.len() <= usize::MAX,
        call_ensures(reject_duplicate, (seen, &arguments), checked),
    ensures
        checked is Err <==> seen,
        checked matches Err(error) ==> error.problem is Duplicate && error.argument
            == arguments.list@.len(),
{
}

} // verus!
