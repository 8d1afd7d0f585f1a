use axum_fault_tolerance::attribute::{
    Argument, ArgumentError, Arguments, Attribute, AttributeError, Facet, Problem, Value,
};
use axum_fault_tolerance::expansion::{
    expand_fault_tolerant, Expansion, ExpansionError, ImplBlock, Item, Method, PlannedItem,
    WrapperOutput,
};
use axum_fault_tolerance::method::{
    argument_idents, fault_tolerance_output, is_shared_receiver, result_types, validate_method,
    FirstInput, GenericArgument, MethodError, Output, PathArguments, PathSegment, Pattern,
    ResultTypes, Signature,
};

fn attribute(name: &str, list: Vec<Argument>) -> Attribute {
    Attribute { name: Some(name.to_owned()), arguments: Arguments { list, complete: true } }
}

fn retry() -> Attribute {
    attribute("retry", vec![])
}

fn fallback(method: &str) -> Attribute {
    let method = Argument {
        key: Some("method".to_owned()),
        value: Value::Text(method.to_owned()),
    };
    attribute("fallback", vec![method])
}

fn simple(name: &str) -> Pattern {
    Pattern::Ident { name: name.to_owned(), by_ref: false, mutable: false }
}

fn segment(ident: &str, arguments: PathArguments) -> PathSegment {
    PathSegment { ident: ident.to_owned(), arguments }
}

fn result_of(arguments: Vec<GenericArgument>) -> Output {
    Output::Path(vec![segment("Result", PathArguments::AngleBracketed(arguments))])
}

fn shared() -> FirstInput {
    FirstInput::Receiver { reference: true, mutable: false }
}

fn signature(name: &str) -> Signature {
    Signature {
        name: name.to_owned(),
        is_async: true,
        has_generics: false,
        first: shared(),
        arguments: vec![],
        output: result_of(vec![GenericArgument::Type, GenericArgument::Type]),
    }
}

fn method(name: &str, attributes: Vec<Attribute>) -> Item {
    Item::Method(Method { attributes, signature: signature(name) })
}

fn expand(items: Vec<Item>) -> Expansion {
    expand_fault_tolerant(&ImplBlock { is_trait_impl: false, items })
}

#[test]
fn only_a_shared_reference_to_self_is_a_receiver() {
    assert!(is_shared_receiver(shared()));
    assert!(!is_shared_receiver(FirstInput::Receiver { reference: true, mutable: true }));
    assert!(!is_shared_receiver(FirstInput::Receiver { reference: false, mutable: false }));
    assert!(!is_shared_receiver(FirstInput::Typed));
    assert!(!is_shared_receiver(FirstInput::Absent));
}

#[test]
fn arguments_are_simple_identifiers() {
    let mut method = signature("user");
    method.arguments = vec![simple("id"), simple("name")];
    assert_eq!(argument_idents(&method), Ok(vec!["id".to_owned(), "name".to_owned()]));
    method.arguments =
        vec![simple("id"), Pattern::Ident { name: "x".to_owned(), by_ref: false, mutable: true }];
    assert_eq!(argument_idents(&method), Err(MethodError::NotSimple(1)));
    method.arguments = vec![
        Pattern::Ident { name: "x".to_owned(), by_ref: true, mutable: false },
        Pattern::Other,
    ];
    assert_eq!(argument_idents(&method), Err(MethodError::NotSimple(0)));
    method.arguments = vec![simple("id"), simple("name"), Pattern::Other];
    assert_eq!(argument_idents(&method), Err(MethodError::NotSimple(2)));
}

#[test]
fn the_first_obstacle_is_reported() {
    let mut method = signature("user");
    method.arguments = vec![simple("id")];
    assert_eq!(validate_method(&method), Ok(()));
    method.arguments = vec![Pattern::Other];
    assert_eq!(validate_method(&method), Err(MethodError::NotSimple(0)));
    method.first = FirstInput::Typed;
    assert_eq!(validate_method(&method), Err(MethodError::NotShared));
    method.first = FirstInput::Absent;
    assert_eq!(validate_method(&method), Err(MethodError::NoReceiver));
    method.has_generics = true;
    assert_eq!(validate_method(&method), Err(MethodError::Generic));
    method.is_async = false;
    assert_eq!(validate_method(&method), Err(MethodError::NotAsync));
}

#[test]
fn the_types_of_a_result_are_found() {
    let types = |ok, error| Ok(ResultTypes { ok, error });
    let (ty, other) = (GenericArgument::Type, GenericArgument::Other);
    assert_eq!(fault_tolerance_output(&result_of(vec![ty, ty])), types(0, Some(1)));
    assert_eq!(fault_tolerance_output(&result_of(vec![ty])), types(0, None));
    assert_eq!(fault_tolerance_output(&result_of(vec![other, ty, other, ty])), types(1, Some(3)));
    assert_eq!(fault_tolerance_output(&result_of(vec![ty, ty, ty])), types(0, Some(1)));
    assert_eq!(fault_tolerance_output(&result_of(vec![other])), Err(MethodError::NotResult));
    assert_eq!(fault_tolerance_output(&Output::Default), Err(MethodError::NoOutput));
    assert_eq!(fault_tolerance_output(&Output::Other), Err(MethodError::NotResult));
}

#[test]
fn the_last_segment_of_a_path_is_the_result() {
    let generic = || PathArguments::AngleBracketed(vec![GenericArgument::Type]);
    let path = vec![segment("io", PathArguments::Absent), segment("Result", generic())];
    assert_eq!(result_types(&path), Ok(ResultTypes { ok: 0, error: None }));
    let option = vec![segment("Result", generic()), segment("Option", generic())];
    assert_eq!(result_types(&option), Err(MethodError::NotResult));
    let bare = vec![segment("Result", PathArguments::Absent)];
    assert_eq!(result_types(&bare), Err(MethodError::NotResult));
    let call = vec![segment("Result", PathArguments::Parenthesized)];
    assert_eq!(result_types(&call), Err(MethodError::NotResult));
    assert_eq!(result_types(&vec![]), Err(MethodError::NotResult));
}

#[test]
fn annotated_methods_are_expanded_and_others_kept() {
    let mut annotated = signature("load_user");
    annotated.arguments = vec![simple("id")];
    let expansion = expand(vec![
        Item::Other,
        Item::Method(Method {
            attributes: vec![attribute("doc", vec![]), retry(), attribute("inline", vec![])],
            signature: annotated,
        }),
        method("helper", vec![attribute("doc", vec![])]),
    ]);
    assert!(expansion.errors.is_empty());
    assert_eq!(expansion.items.len(), 3);
    assert!(matches!(expansion.items[0], PlannedItem::Kept(0)));
    assert!(matches!(expansion.items[2], PlannedItem::Kept(2)));
    let PlannedItem::Expanded(1, plan, retained) = &expansion.items[1] else {
        panic!("the method is not expanded");
    };
    assert_eq!(plan.hidden_name, "__fault_tolerance_load_user");
    assert_eq!(plan.arguments, vec!["id".to_owned()]);
    assert_eq!(
        plan.output,
        WrapperOutput::FaultTolerant(ResultTypes { ok: 0, error: Some(1) })
    );
    assert_eq!(*retained, vec![0, 2]);
}

#[test]
fn a_fallback_keeps_what_the_method_returns() {
    let mut annotated = signature("load_user");
    annotated.output = Output::Default;
    let expansion = expand(vec![Item::Method(Method {
        attributes: vec![fallback("cached_user")],
        signature: annotated,
    })]);
    assert!(expansion.errors.is_empty());
    let PlannedItem::Expanded(0, plan, _) = &expansion.items[0] else {
        panic!("the method is not expanded");
    };
    assert_eq!(plan.output, WrapperOutput::Unchanged);
    assert_eq!(plan.policy.fallback_method, Some("cached_user".to_owned()));
}

#[test]
fn errors_come_in_order() {
    let mut blocking = signature("blocking");
    blocking.is_async = false;
    let expansion = expand_fault_tolerant(&ImplBlock {
        is_trait_impl: true,
        items: vec![
            Item::Method(Method { attributes: vec![retry()], signature: blocking }),
            method("twice", vec![retry(), attribute("doc", vec![]), retry()]),
        ],
    });
    let cause = AttributeError {
        attribute: 2,
        facet: Facet::Retry,
        error: ArgumentError { argument: 0, problem: Problem::Duplicate },
    };
    assert_eq!(
        expansion.errors,
        vec![
            ExpansionError::TraitImpl,
            ExpansionError::Method { item: 0, error: MethodError::NotAsync },
            ExpansionError::Attribute { position: 1, cause },
        ]
    );
    assert_eq!(expansion.items.len(), 1);
    assert!(matches!(expansion.items[0], PlannedItem::Stripped(1)));
}

#[test]
fn a_block_without_policies_is_an_error() {
    let expansion = expand(vec![method("helper", vec![]), Item::Other]);
    assert_eq!(expansion.errors, vec![ExpansionError::NoAnnotatedMethod]);
    assert_eq!(expansion.items.len(), 2);
    assert!(matches!(expansion.items[0], PlannedItem::Kept(0)));
    assert!(matches!(expansion.items[1], PlannedItem::Kept(1)));
}

#[test]
fn expansion_errors_have_their_texts() {
    let of_method = |error| ExpansionError::Method { item: 0, error }.message();
    for (error, expected) in [
        (MethodError::NotAsync, "fault tolerant methods must be async"),
        (MethodError::Generic, "fault tolerant methods must not have generic parameters"),
        (
            MethodError::NotShared,
            "fault tolerant methods must take &self as the first parameter",
        ),
        (MethodError::NoReceiver, "fault tolerant methods must take &self"),
        (
            MethodError::NotSimple(1),
            "fault tolerant method arguments must use simple identifiers",
        ),
        (MethodError::NoOutput, "fault tolerant methods must return Result<T, E>"),
        (MethodError::NotResult, "expected Result<T, E>"),
    ] {
        assert_eq!(of_method(error), Some(expected.to_owned()));
    }
    assert_eq!(
        ExpansionError::TraitImpl.message(),
        Some("#[fault_tolerant] must be used on an inherent impl block".to_owned())
    );
    assert_eq!(
        ExpansionError::NoAnnotatedMethod.message(),
        Some(
            "#[fault_tolerant] requires at least one method annotated with a fault tolerance policy"
                .to_owned()
        )
    );
    let cause = AttributeError {
        attribute: 0,
        facet: Facet::Bulkhead,
        error: ArgumentError { argument: 0, problem: Problem::Malformed },
    };
    assert_eq!(ExpansionError::Attribute { position: 0, cause }.message(), None);
}
