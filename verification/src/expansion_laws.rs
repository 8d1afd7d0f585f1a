//! What becomes of annotated methods, told from their signatures and attributes.

use vstd::prelude::*;

use crate::attribute::{policy_of, retained, PolicyAttrs};
use crate::expansion::{
    expand_fault_tolerant, expand_method, has_annotated, is_annotated, item_error, item_errors,
    law_items_stay_in_order, law_other_items_are_kept, method_plan, planned_item, planned_items,
    Expansion, ExpansionError, ImplBlock, Item, Method, MethodPlan, PlannedItem, PlannedItemView,
    WrapperOutput,
};
use crate::method::{
    argument_idents, argument_names, fault_tolerance_output, first_type, is_shared_receiver,
    output_types, path_types, result_types, validate_method, FirstInput, GenericArgument,
    MethodError, Output, PathArguments, PathSegment, Pattern, ResultTypes, Signature,
};

verus! {

/// Whether a pattern is an identifier and nothing more, of the given name.
pub open spec fn is_simple(pattern: Pattern, name: String) -> bool {
    pattern == (Pattern::Ident { name, by_ref: false, mutable: false })
}

/// Whether a parameter is no simple identifier.
pub open spec fn is_complex(pattern: Pattern) -> bool {
    match pattern {
        Pattern::Ident { by_ref, mutable, .. } => by_ref || mutable,
        Pattern::Other => true,
    }
}

/// The names of the parameters, or the first that is no simple identifier.
proof fn lemma_argument_names(arguments: Seq<Pattern>)
    requires
        arguments.len() <= usize::MAX,
    ensures
        match argument_names(arguments) {
            Ok(names) => {
                &&& names.len() == arguments.len()
                &&& forall|i: int|
                    0 <= i < arguments.len() ==> is_simple(#[trigger] arguments[i], names[i])
            },
            Err(error) => error matches MethodError::NotSimple(position) && {
                &&& position < arguments.len()
                &&& is_complex(arguments[position as int])
                &&& forall|i: int| 0 <= i < position ==> !is_complex(#[trigger] arguments[i])
            },
        },
    decreases arguments.len(),
{
    if arguments.len() > 0 {
        let before = arguments.drop_last();
        lemma_argument_names(before);
        assert forall|i: int| 0 <= i < before.len() implies before[i]
            == #[trigger] arguments[i] by {}
        if let Ok(names) = argument_names(before) {
            assert forall|i: int| 0 <= i < before.len() implies !is_complex(
                #[trigger] arguments[i],
            ) by {
                assert(is_simple(before[i], names[i]));
            }
        }
    }
}

/// The names of the arguments of a method are those of its parameters after the
/// receiver, each at its place; where a parameter is no simple identifier the first
/// such is told.
pub proof fn law_arguments_are_the_parameters(
    signature: Signature,
    names: Result<Vec<String>, MethodError>,
)
    requires
        signature.arguments@.len() <= usize::MAX,
        call_ensures(argument_idents, (&signature,), names),
    ensures
        match names {
            Ok(names) => {
                &&& names@.len() == signature.arguments@.len()
                &&& forall|i: int|
                    0 <= i < names@.len() ==> is_simple(
                        #[trigger] signature.arguments@[i],
                        names@[i],
                    )
            },
            Err(error) => error matches MethodError::NotSimple(position) && {
                &&& position < signature.arguments@.len()
                &&& is_complex(signature.arguments@[position as int])
                &&& forall|i: int|
                    0 <= i < position ==> !is_complex(#[trigger] signature.arguments@[i])
            },
        },
{
    lemma_argument_names(signature.arguments@);
}

/// The first of what can be wrong with a method is told: that it returns no future,
/// that it is generic, that it has no parameter, that the first is not `&self`, that
/// another is no simple identifier. A method with none of that is valid.
pub proof fn law_the_first_obstacle_is_told(signature: Signature, valid: Result<(), MethodError>)
    requires
        signature.arguments@.len() <= usize::MAX,
        call_ensures(validate_method, (&signature,), valid),
    ensures
        ({
            let shared = FirstInput::Receiver { reference: true, mutable: false };
            match valid {
                Ok(()) => {
                    &&& signature.is_async
                    &&& !signature.has_generics
                    &&& signature.first == shared
                    &&& forall|i: int|
                        0 <= i < signature.arguments@.len() ==> !is_complex(
                            #[trigger] signature.arguments@[i],
                        )
                },
                Err(MethodError::NotAsync) => !signature.is_async,
                Err(MethodError::Generic) => signature.is_async && signature.has_generics,
                Err(MethodError::NoReceiver) => signature.is_async && !signature.has_generics
                    && signature.first is Absent,
                Err(MethodError::NotShared) => signature.is_async && !signature.has_generics && !(
                signature.first is Absent) && signature.first != shared,
                Err(MethodError::NotSimple(position)) => {
                    &&& signature.is_async
                    &&& !signature.has_generics
                    &&& signature.first == shared
                    &&& position < signature.arguments@.len()
                    &&& is_complex(signature.arguments@[position as int])
                    &&& forall|i: int|
                        0 <= i < position ==> !is_complex(#[trigger] signature.arguments@[i])
                },
                Err(_) => false,
            }
        }),
{
    lemma_argument_names(signature.arguments@);
    if let Ok(names) = argument_names(signature.arguments@) {
        assert forall|i: int| 0 <= i < signature.arguments@.len() implies !is_complex(
            #[trigger] signature.arguments@[i],
        ) by {
            assert(is_simple(signature.arguments@[i], names[i]));
        }
    }
}

/// Whether `found` is the first type among generic arguments from a position on.
pub open spec fn is_first_type(
    arguments: Seq<GenericArgument>,
    from: int,
    found: Option<usize>,
) -> bool {
    match found {
        Some(position) => {
            &&& from <= position < arguments.len()
            &&& arguments[position as int] is Type
            &&& forall|i: int| from <= i < position ==> !(#[trigger] arguments[i] is Type)
        },
        None => forall|i: int| from <= i < arguments.len() ==> !(#[trigger] arguments[i] is Type),
    }
}

proof fn lemma_first_type(arguments: Seq<GenericArgument>, from: nat)
    requires
        arguments.len() <= usize::MAX,
    ensures
        is_first_type(arguments, from as int, first_type(arguments, from)),
    decreases arguments.len() - from,
{
    if from < arguments.len() {
        lemma_first_type(arguments, from + 1);
    }
}

/// Whether a path is one to a `Result` with some type in angle brackets.
pub open spec fn is_result(segments: Seq<PathSegment>) -> bool {
    &&& segments.len() > 0
    &&& segments.last().ident@ == "Result"@
    &&& segments.last().arguments matches PathArguments::AngleBracketed(arguments)
    &&& exists|i: int| 0 <= i < arguments@.len() && #[trigger] arguments@[i] is Type
}

/// The types of a `Result` are the first and the second type in the angle brackets
/// of the last segment of its path.
pub proof fn law_types_of_a_result(
    segments: Vec<PathSegment>,
    types: Result<ResultTypes, MethodError>,
)
    requires
        call_ensures(result_types, (&segments,), types),
        segments@.len() > 0 ==> (
        segments@.last().arguments matches PathArguments::AngleBracketed(arguments)
            ==> arguments@.len() <= usize::MAX),
    ensures
        types is Ok <==> is_result(segments@),
        types matches Err(error) ==> error is NotResult,
        types matches Ok(types) ==> {
            let arguments = segments@.last().arguments->AngleBracketed_0@;
            &&& is_first_type(arguments, 0, Some(types.ok))
            &&& is_first_type(arguments, types.ok + 1, types.error)
        },
{
    if segments@.len() > 0 {
        if let PathArguments::AngleBracketed(arguments) = segments@.last().arguments {
            lemma_first_type(arguments@, 0);
            if let Some(ok) = first_type(arguments@, 0) {
                lemma_first_type(arguments@, ok as nat + 1);
                assert(arguments@[ok as int] is Type);
            }
        }
    }
}

/// A method must say that it returns a `Result`: one that says nothing, or another
/// type, is refused, each with its own error.
pub proof fn law_methods_return_results(output: Output, types: Result<ResultTypes, MethodError>)
    requires
        call_ensures(fault_tolerance_output, (&output,), types),
    ensures
        types == output_types(output),
        output is Default ==> types == Err::<ResultTypes, MethodError>(MethodError::NoOutput),
        output is Other ==> types == Err::<ResultTypes, MethodError>(MethodError::NotResult),
        output matches Output::Path(segments) ==> types == path_types(segments@),
{
}

/// A method is expanded where it is valid and returns a `Result`, or has a
/// fallback. The wrapper then hands on as many arguments as the method has
/// parameters after the receiver, at each position the name of the parameter at that
/// position. The method is hidden under its own name behind a prefix, the policies
/// are those given, and a wrapper without a fallback returns the types of the
/// method's `Result`.
pub proof fn law_wrappers_hand_on_the_parameters(
    signature: Signature,
    policy: PolicyAttrs,
    valid: Result<(), MethodError>,
    plan: Result<MethodPlan, MethodError>,
)
    requires
        signature.arguments@.len() <= usize::MAX,
        call_ensures(validate_method, (&signature,), valid),
        call_ensures(expand_method, (&signature, policy), plan),
    ensures
        plan is Ok <==> valid is Ok && (policy.fallback_method is Some || output_types(
            signature.output,
        ) is Ok),
        match plan {
            Ok(plan) => {
                &&& plan.arguments@.len() == signature.arguments@.len()
                &&& forall|i: int|
                    0 <= i < plan.arguments@.len() ==> is_simple(
                        #[trigger] signature.arguments@[i],
                        plan.arguments@[i],
                    )
                &&& plan.hidden_name@ == "__fault_tolerance_"@ + signature.name@
                &&& plan.policy == policy
                &&& match plan.output {
                    WrapperOutput::Unchanged => policy.fallback_method is Some,
                    WrapperOutput::FaultTolerant(types) => policy.fallback_method is None
                        && output_types(signature.output) == Ok::<ResultTypes, MethodError>(types),
                }
            },
            Err(error) => match valid {
                Err(first) => error == first,
                Ok(()) => output_types(signature.output) == Err::<ResultTypes, MethodError>(error),
            },
        },
{
    lemma_argument_names(signature.arguments@);
}

/// What becomes of an item, and what is told of it. Anything that asks for no policy
/// stays, and nothing is told. A method whose attributes are wrong stays without
/// them, and that is told. Another annotated method is expanded, with the attributes
/// that ask for no policy; or it is left out, and what keeps it from that is told.
pub proof fn law_what_becomes_of_an_item(item: Item, position: usize)
    ensures
        is_annotated(item) <==> (item matches Item::Method(method) && exists|i: int|
            0 <= i < method.attributes@.len() && #[trigger] method.attributes@[i].asks_for() is Some),
        !is_annotated(item) ==> planned_item(item, position) == Some(
            PlannedItemView::Kept(position),
        ) && item_error(item, position) is None,
        item matches Item::Method(method) ==> (is_annotated(item) ==> {
            match policy_of(method.attributes@) {
                Err(cause) => {
                    &&& planned_item(item, position) == Some(PlannedItemView::Stripped(position))
                    &&& item_error(item, position) == Some(
                        ExpansionError::Attribute { position, cause },
                    )
                },
                Ok(policy) => match method_plan(method.signature, policy) {
                    Ok(plan) => {
                        &&& planned_item(item, position) == Some(
                            PlannedItemView::Expanded(
                                position,
                                plan,
                                retained(method.attributes@, method.attributes@.len()),
                            ),
                        )
                        &&& item_error(item, position) is None
                    },
                    Err(error) => {
                        &&& planned_item(item, position) is None
                        &&& item_error(item, position) == Some(
                            ExpansionError::Method { item: position, error },
                        )
                    },
                },
            }
        }),
{
    law_other_items_are_kept(item, position);
}

/// The position of the item that an error is about.
pub open spec fn error_position(error: ExpansionError) -> Option<usize> {
    match error {
        ExpansionError::Attribute { position, .. } => Some(position),
        ExpansionError::Method { item, .. } => Some(item),
        _ => None,
    }
}

/// The errors of items come in the order of the items, one for each that has one.
#[verifier::rlimit(60)]
proof fn lemma_item_errors(items: Seq<Item>, count: nat)
    requires
        count <= items.len() <= usize::MAX,
    ensures
        forall|k: int|
            0 <= k < item_errors(items, count).len() ==> {
                let error = #[trigger] item_errors(items, count)[k];
                &&& error_position(error) matches Some(position)
                &&& position < count
                &&& item_error(items[position as int], position) == Some(error)
            },
        forall|j: int, k: int|
            0 <= j < k < item_errors(items, count).len() ==> error_position(
                #[trigger] item_errors(items, count)[j],
            )->0 < error_position(#[trigger] item_errors(items, count)[k])->0,
        forall|position: usize|
            position < count && #[trigger] item_error(items[position as int], position) is Some
                ==> item_errors(items, count).contains(
                item_error(items[position as int], position)->0,
            ),
    decreases count,
{
    if count > 0 {
        let before = item_errors(items, (count - 1) as nat);
        let all = item_errors(items, count);
        lemma_item_errors(items, (count - 1) as nat);
        assert forall|position: usize|
            position < count && #[trigger] item_error(items[position as int], position) is Some
                implies all.contains(item_error(items[position as int], position)->0) by {
            let error = item_error(items[position as int], position)->0;
            if position < count - 1 {
                assert(before.contains(error));
                let k = choose|k: int| 0 <= k < before.len() && before[k] == error;
                assert(all[k] == error);
            } else {
                assert(all.last() == error);
            }
        }
    }
}

/// Every item of a block is planned for, in order, by what becomes of it alone, and
/// nothing else is there.
#[verifier::rlimit(60)]
pub proof fn law_blocks_are_expanded_item_by_item(block: ImplBlock, expansion: Expansion)
    requires
        block.items@.len() <= usize::MAX,
        call_ensures(expand_fault_tolerant, (&block,), expansion),
    ensures
        forall|k: int|
            0 <= k < expansion.items@.len() ==> {
                let position = (#[trigger] expansion.items@[k])@.position();
                &&& position < block.items@.len()
                &&& planned_item(block.items@[position as int], position) == Some(
                    expansion.items@[k]@,
                )
            },
        forall|j: int, k: int|
            0 <= j < k < expansion.items@.len() ==> (#[trigger] expansion.items@[j])@.position() < (
            #[trigger] expansion.items@[k])@.position(),
        forall|position: usize|
            position < block.items@.len() && #[trigger] planned_item(
                block.items@[position as int],
                position,
            ) is Some ==> exists|k: int|
                0 <= k < expansion.items@.len() && (#[trigger] expansion.items@[k])@
                    == planned_item(block.items@[position as int], position)->0,
{
    let items = block.items@;
    let count = items.len();
    let planned = planned_items(items, count);
    law_items_stay_in_order(items, count);
    let view = |item: PlannedItem| item@;
    assert(expansion.items@.map_values(view) == planned);
    assert forall|k: int| 0 <= k < expansion.items@.len() implies planned[k]
        == (#[trigger] expansion.items@[k])@ by {
        assert(expansion.items@.map_values(view)[k] == expansion.items@[k]@);
    }
    assert(planned.len() == expansion.items@.len());
    assert forall|position: usize|
        position < count && #[trigger] planned_item(items[position as int], position) is Some
            implies exists|k: int|
        0 <= k < expansion.items@.len() && (#[trigger] expansion.items@[k])@ == planned_item(
            items[position as int],
            position,
        )->0 by {
        let wanted = planned_item(items[position as int], position)->0;
        assert(planned.contains(wanted));
        let k = choose|k: int| 0 <= k < planned.len() && planned[k] == wanted;
        assert(expansion.items@[k]@ == wanted);
    }
}

/// The errors of a block are, in this order: that the block implements a trait,
/// exactly where it does; those of its items, one for each that has one, in the order
/// of the items; and that no method is annotated, exactly where none is. There is no
/// other.
#[verifier::rlimit(60)]
pub proof fn law_errors_of_a_block(block: ImplBlock, expansion: Expansion)
    requires
        block.items@.len() <= usize::MAX,
        call_ensures(expand_fault_tolerant, (&block,), expansion),
    ensures
        block.is_trait_impl <==> expansion.errors@.len() > 0 && expansion.errors@[0] is TraitImpl,
        expansion.errors@.len() > 0 && expansion.errors@.last() is NoAnnotatedMethod <==> (forall|
            i: int,
        |
            0 <= i < block.items@.len() ==> !#[trigger] is_annotated(block.items@[i])),
        forall|j: int, k: int|
            0 <= j < k < expansion.errors@.len() && error_position(
                #[trigger] expansion.errors@[j],
            ) is Some && error_position(#[trigger] expansion.errors@[k]) is Some ==> error_position(
                expansion.errors@[j],
            )->0 < error_position(expansion.errors@[k])->0,
        forall|k: int|
            0 <= k < expansion.errors@.len() ==> match error_position(
                #[trigger] expansion.errors@[k],
            ) {
                Some(position) => position < block.items@.len() && item_error(
                    block.items@[position as int],
                    position,
                ) == Some(expansion.errors@[k]),
                None => (expansion.errors@[k] is TraitImpl && k == 0) || (
                expansion.errors@[k] is NoAnnotatedMethod && k == expansion.errors@.len() - 1),
            },
        forall|position: usize|
            position < block.items@.len() && #[trigger] item_error(
                block.items@[position as int],
                position,
            ) is Some ==> expansion.errors@.contains(
                item_error(block.items@[position as int], position)->0,
            ),
{
    let items = block.items@;
    let count = items.len();
    lemma_item_errors(items, count);
    let errors = expansion.errors@;
    let of_items = item_errors(items, count);
    let shift = if block.is_trait_impl {
        1int
    } else {
        0int
    };
    assert(has_annotated(items, count) <==> !(forall|i: int|
        0 <= i < items.len() ==> !#[trigger] is_annotated(items[i])));
    assert forall|k: int| 0 <= k < of_items.len() implies #[trigger] of_items[k]
        == errors[k + shift] by {}
    assert forall|k: int|
        0 <= k < errors.len() && error_position(#[trigger] errors[k]) is Some implies shift <= k
        < of_items.len() + shift && errors[k] == of_items[k - shift] by {}
    assert forall|position: usize|
        position < count && #[trigger] item_error(items[position as int], position) is Some
            implies errors.contains(item_error(items[position as int], position)->0) by {
        let error = item_error(items[position as int], position)->0;
        let k = choose|k: int| 0 <= k < of_items.len() && of_items[k] == error;
        assert(of_items.contains(error));
        assert(errors[k + shift] == error);
    }
    if errors.len() > 0 && of_items.len() > 0 {
        assert(error_position(of_items[0]) is Some);
        assert(error_position(of_items[of_items.len() - 1]) is Some);
    }
}

/// A first parameter is `&self` where it is a receiver by reference that cannot be
/// changed through it.
pub proof fn law_which_receivers_are_shared(first: FirstInput, shared: bool)
    requires
        call_ensures(is_shared_receiver, (first,), shared),
    ensures
        shared <==> (first matches FirstInput::Receiver { reference, mutable } && reference
            && !mutable),
{
}

} // verus!
