//! The methods that policies can be put around: what their signatures must look
//! like, and what the wrapper around one returns.

use vstd::prelude::*;

use crate::attribute::is_text;

verus! {

/// The first parameter of a method.
#[derive(Debug, Clone, Copy, PartialEq, Eq)]
pub enum FirstInput {
    /// There is none.
    Absent,
    /// A receiver: whether it is behind a reference, and whether it is mutable.
    Receiver { reference: bool, mutable: bool },
    /// Any other parameter.
    Typed,
}

/// The pattern of a parameter.
#[derive(Debug)]
pub enum Pattern {
    /// An identifier and nothing more: whether it binds by reference, and whether
    /// it is mutable.
    Ident { name: String, by_ref: bool, mutable: bool },
    /// Any other pattern, an identifier with a pattern behind `@` among them.
    Other,
}

/// A generic argument, told apart by whether it is a type.
#[derive(Debug, Clone, Copy, PartialEq, Eq)]
pub enum GenericArgument {
    /// A type.
    Type,
    /// A lifetime, a constant or a constraint.
    Other,
}

/// The arguments of a path segment.
#[derive(Debug)]
pub enum PathArguments {
    /// There are none.
    Absent,
    /// Arguments in angle brackets.
    AngleBracketed(Vec<GenericArgument>),
    /// Arguments in round brackets.
    Parenthesized,
}

/// A segment of a path.
#[derive(Debug)]
pub struct PathSegment {
    /// The identifier of the segment.
    pub ident: String,
    /// The arguments of the segment.
    pub arguments: PathArguments,
}

/// What a method returns.
#[derive(Debug)]
pub enum Output {
    /// Nothing was written.
    Default,
    /// A type that is a path, by its segments.
    Path(Vec<PathSegment>),
    /// Any other type.
    Other,
}

/// The signature of a method.
#[derive(Debug)]
pub struct Signature {
    /// The name of the method.
    pub name: String,
    /// Whether the method returns a future.
    pub is_async: bool,
    /// Whether the method has generic parameters.
    pub has_generics: bool,
    /// The first parameter.
    pub first: FirstInput,
    /// The patterns of the other parameters.
    pub arguments: Vec<Pattern>,
    /// What the method returns.
    pub output: Output,
}

/// Why no policies can be put around a method.
#[derive(Debug, Clone, Copy, PartialEq, Eq)]
pub enum MethodError {
    /// The method returns no future.
    NotAsync,
    /// The method has generic parameters.
    Generic,
    /// The first parameter is no `&self`.
    NotShared,
    /// The method has no parameter.
    NoReceiver,
    /// An argument is no simple identifier: its position after the receiver.
    NotSimple(usize),
    /// The method returns nothing.
    NoOutput,
    /// The method does not return a `Result` of one or two types.
    NotResult,
}

/// Where the types of a returned `Result` stand among its generic arguments.
#[derive(Debug, Clone, Copy, PartialEq, Eq)]
pub struct ResultTypes {
    /// The position of the type of a success.
    pub ok: usize,
    /// The position of the type of an error, if it was written.
    pub error: Option<usize>,
}

impl MethodError {
    /// The error as text.
    pub open spec fn text(self) -> Seq<char> {
        match self {
            MethodError::NotAsync => "fault tolerant methods must be async"@,
            MethodError::Generic => "fault tolerant methods must not have generic parameters"@,
            MethodError::NotShared => "fault tolerant methods must take &self as the first parameter"@,
            MethodError::NoReceiver => "fault tolerant methods must take &self"@,
            MethodError::NotSimple(_) => "fault tolerant method arguments must use simple identifiers"@,
            MethodError::NoOutput => "fault tolerant methods must return Result<T, E>"@,
            MethodError::NotResult => "expected Result<T, E>"@,
        }
    }

    /// The error as text.
    pub fn message(&self) -> (message: String)
        ensures
            message@ == self.text(),
    {
        let message = match self {
            MethodError::NotAsync => "fault tolerant methods must be async",
            MethodError::Generic => "fault tolerant methods must not have generic parameters",
            MethodError::NotShared => "fault tolerant methods must take &self as the first parameter",
            MethodError::NoReceiver => "fault tolerant methods must take &self",
            MethodError::NotSimple(_) => "fault tolerant method arguments must use simple identifiers",
            MethodError::NoOutput => "fault tolerant methods must return Result<T, E>",
            MethodError::NotResult => "expected Result<T, E>",
        };
        message.to_owned()
    }
}

/// Whether a first parameter is `&self`.
pub open spec fn shared_receiver(first: FirstInput) -> bool {
    first == (FirstInput::Receiver { reference: true, mutable: false })
}

/// Whether a first parameter is `&self`.
pub fn is_shared_receiver(first: FirstInput) -> (shared: bool)
    ensures
        shared == shared_receiver(first),
{
    match first {
        FirstInput::Receiver { reference, mutable } => reference && !mutable,
        FirstInput::Absent | FirstInput::Typed => false,
    }
}

/// The name that a pattern binds, where it is a simple identifier.
pub open spec fn simple_name(pattern: Pattern) -> Option<String> {
    match pattern {
        Pattern::Ident { name, by_ref: false, mutable: false } => Some(name),
        _ => None,
    }
}

/// The names of the arguments, or the first argument that has none.
pub open spec fn argument_names(arguments: Seq<Pattern>) -> Result<Seq<String>, MethodError>
    decreases arguments.len(),
{
    if arguments.len() == 0 {
        Ok(Seq::empty())
    } else {
        match argument_names(arguments.drop_last()) {
            Ok(names) => match simple_name(arguments.last()) {
                Some(name) => Ok(names.push(name)),
                None => Err(MethodError::NotSimple((arguments.len() - 1) as usize)),
            },
            Err(error) => Err(error),
        }
    }
}

/// An argument that is no simple identifier spoils every longer list.
proof fn lemma_not_simple(arguments: Seq<Pattern>, count: int)
    requires
        0 <= count <= arguments.len(),
        argument_names(arguments.take(count)) is Err,
    ensures
        argument_names(arguments) == argument_names(arguments.take(count)),
    decreases arguments.len(),
{
    if count == arguments.len() {
        assert(arguments.take(count) =~= arguments);
    } else {
        assert(arguments.drop_last().take(count) =~= arguments.take(count));
        lemma_not_simple(arguments.drop_last(), count);
    }
}

/// The names of the arguments of a method.
pub fn argument_idents(signature: &Signature) -> (names: Result<Vec<String>, MethodError>)
    ensures
        match names {
            Ok(names) => argument_names(signature.arguments@) == Ok::<Seq<String>, MethodError>(
                names@,
            ),
            Err(error) => argument_names(signature.arguments@) == Err::<Seq<String>, MethodError>(
                error,
            ),
        },
{
    let arguments = &signature.arguments;
    let mut names: Vec<String> = Vec::new();
    let mut next: usize = 0;
    while next < arguments.len()
        invariant
            next <= arguments@.len(),
            arguments == signature.arguments,
            argument_names(arguments@.take(next as int)) == Ok::<Seq<String>, MethodError>(names@),
        decreases arguments@.len() - next,
    {
        proof {
            assert(arguments@.take(next + 1).drop_last() == arguments@.take(next as int));
            if simple_name(arguments@[next as int]) is None {
                lemma_not_simple(arguments@, next + 1);
            }
        }
        match &arguments[next] {
            Pattern::Ident { name, by_ref, mutable } => {
                if *by_ref || *mutable {
                    return Err(MethodError::NotSimple(next));
                }
                names.push(name.clone());
            },
            Pattern::Other => {
                return Err(MethodError::NotSimple(next));
            },
        }
        next = next + 1;
    }
    assert(arguments@.take(next as int) == arguments@);
    Ok(names)
}

/// What keeps policies from being put around a method, apart from what it
/// returns. The first of these counts: it returns no future, it is generic, its
/// first parameter is not `&self`, an argument is no simple identifier.
pub open spec fn obstacle(signature: Signature) -> Option<MethodError> {
    if !signature.is_async {
        Some(MethodError::NotAsync)
    } else if signature.has_generics {
        Some(MethodError::Generic)
    } else if signature.first is Absent {
        Some(MethodError::NoReceiver)
    } else if !shared_receiver(signature.first) {
        Some(MethodError::NotShared)
    } else {
        match argument_names(signature.arguments@) {
            Ok(_) => None,
            Err(error) => Some(error),
        }
    }
}

/// Tests whether policies can be put around a method, apart from what it
/// returns.
pub fn validate_method(signature: &Signature) -> (valid: Result<(), MethodError>)
    ensures
        match valid {
            Ok(()) => obstacle(*signature) is None,
            Err(error) => obstacle(*signature) == Some(error),
        },
{
    if !signature.is_async {
        return Err(MethodError::NotAsync);
    }
    if signature.has_generics {
        return Err(MethodError::Generic);
    }
    match signature.first {
        FirstInput::Absent => {
            return Err(MethodError::NoReceiver);
        },
        first => {
            if !is_shared_receiver(first) {
                return Err(MethodError::NotShared);
            }
        },
    }
    match argument_idents(signature) {
        Ok(_) => Ok(()),
        Err(error) => Err(error),
    }
}

/// The first type among generic arguments from a position on.
pub open spec fn first_type(arguments: Seq<GenericArgument>, from: nat) -> Option<usize>
    decreases arguments.len() - from,
{
    if from >= arguments.len() {
        None
    } else if arguments[from as int] == GenericArgument::Type {
        Some(from as usize)
    } else {
        first_type(arguments, from + 1)
    }
}

/// Finds the first type among generic arguments from a position on.
fn find_type(arguments: &Vec<GenericArgument>, from: usize) -> (position: Option<usize>)
    requires
        from <= arguments@.len(),
    ensures
        position == first_type(arguments@, from as nat),
        position matches Some(position) ==> from <= position < arguments.len(),
{
    let mut next: usize = from;
    while next < arguments.len()
        invariant
            from <= next <= arguments@.len(),
            first_type(arguments@, from as nat) == first_type(arguments@, next as nat),
        decreases arguments@.len() - next,
    {
        match arguments[next] {
            GenericArgument::Type => {
                return Some(next);
            },
            GenericArgument::Other => {},
        }
        next = next + 1;
    }
    None
}

/// The types of a path to a `Result`: its last segment has that name, and the
/// first type in its angle brackets is that of a success, the second that of an
/// error.
pub open spec fn path_types(segments: Seq<PathSegment>) -> Result<ResultTypes, MethodError> {
    if segments.len() == 0 || segments.last().ident@ != "Result"@ {
        Err(MethodError::NotResult)
    } else {
        match segments.last().arguments {
            PathArguments::AngleBracketed(arguments) => match first_type(arguments@, 0) {
                Some(ok) => Ok(ResultTypes { ok, error: first_type(arguments@, ok as nat + 1) }),
                None => Err(MethodError::NotResult),
            },
            _ => Err(MethodError::NotResult),
        }
    }
}

/// Finds the types of a path to a `Result`.
pub fn result_types(segments: &Vec<PathSegment>) -> (types: Result<ResultTypes, MethodError>)
    ensures
        types == path_types(segments@),
{
    if segments.len() == 0 {
        return Err(MethodError::NotResult);
    }
    let segment = &segments[segments.len() - 1];
    if !is_text(&segment.ident, "Result") {
        return Err(MethodError::NotResult);
    }
    match &segment.arguments {
        PathArguments::AngleBracketed(arguments) => match find_type(arguments, 0) {
            Some(ok) => Ok(ResultTypes { ok, error: find_type(arguments, ok + 1) }),
            None => Err(MethodError::NotResult),
        },
        PathArguments::Absent | PathArguments::Parenthesized => Err(MethodError::NotResult),
    }
}

/// The types of the `Result` that a method returns.
pub open spec fn output_types(output: Output) -> Result<ResultTypes, MethodError> {
    match output {
        Output::Default => Err(MethodError::NoOutput),
        Output::Path(segments) => path_types(segments@),
        Output::Other => Err(MethodError::NotResult),
    }
}

/// Finds the types of the `Result` that a method returns. The wrapper around it
/// returns the same success, and the same error inside the library's own.
pub fn fault_tolerance_output(output: &Output) -> (types: Result<ResultTypes, MethodError>)
    ensures
        types == output_types(*output),
{
    match output {
        Output::Default => Err(MethodError::NoOutput),
        Output::Path(segments) => result_types(segments),
        Output::Other => Err(MethodError::NotResult),
    }
}

/// Where the arguments have names, each is a simple identifier, and the names are
/// theirs in order; where they have not, some argument is no simple identifier.
pub proof fn law_arguments_are_named(arguments: Seq<Pattern>)
    ensures
        match argument_names(arguments) {
            Ok(names) => {
                &&& names.len() == arguments.len()
                &&& forall|i: int|
                    0 <= i < arguments.len() ==> Some(names[i]) == #[trigger] simple_name(
                        arguments[i],
                    )
            },
            Err(_) => exists|i: int|
                0 <= i < arguments.len() && #[trigger] simple_name(arguments[i]) is None,
        },
    decreases arguments.len(),
{
    if arguments.len() > 0 {
        let before = arguments.drop_last();
        law_arguments_are_named(before);
        assert(forall|i: int| 0 <= i < before.len() ==> before[i] == arguments[i]);
        if argument_names(before) is Err {
            let i = choose|i: int|
                0 <= i < before.len() && #[trigger] simple_name(before[i]) is None;
            assert(simple_name(arguments[i]) is None);
        } else if argument_names(arguments) is Err {
            assert(simple_name(arguments[arguments.len() - 1]) is None);
        }
    }
}

/// Policies can be put around exactly the methods that return a future, have no
/// generic parameters, and take `&self` and simple identifiers.
pub proof fn law_which_methods_are_valid(signature: Signature)
    ensures
        obstacle(signature) is None <==> {
            &&& signature.is_async
            &&& !signature.has_generics
            &&& shared_receiver(signature.first)
            &&& forall|i: int|
                0 <= i < signature.arguments@.len() ==> #[trigger] simple_name(
                    signature.arguments@[i],
                ) is Some
        },
{
    law_arguments_are_named(signature.arguments@);
}

} // verus!
