//! Putting policies around the methods of an `impl` block.
//!
//! Every method with a policy attribute becomes two: the method itself under a
//! hidden name, and a wrapper under the old name that calls it through the
//! policies. Everything else stays as it is.

use vstd::prelude::*;

use crate::attribute::{
    is_policy_attr, law_nothing_asked_enables_nothing, policy_of, retained, take_policy_attrs, Attribute, AttributeError, PolicyAttrs,
};
use crate::method::{
    argument_idents, argument_names, fault_tolerance_output, obstacle, output_types,
    validate_method, MethodError, ResultTypes, Signature,
};

verus! {

/// A method of an `impl` block.
#[derive(Debug)]
pub struct Method {
    /// The attributes of the method.
    pub attributes: Vec<Attribute>,
    /// The signature of the method.
    pub signature: Signature,
}

/// An item of an `impl` block.
#[derive(Debug)]
pub enum Item {
    /// A method.
    Method(Method),
    /// Anything else.
    Other,
}

/// An `impl` block.
#[derive(Debug)]
pub struct ImplBlock {
    /// Whether the block implements a trait.
    pub is_trait_impl: bool,
    /// The items of the block.
    pub items: Vec<Item>,
}

/// What the wrapper around a method returns.
#[derive(Debug, Clone, Copy, PartialEq, Eq)]
pub enum WrapperOutput {
    /// What the method returns, as it stands.
    Unchanged,
    /// A `Result` of the same success, and of the library's error around the
    /// same error.
    FaultTolerant(ResultTypes),
}

/// How policies are put around a method.
#[derive(Debug)]
pub struct MethodPlan {
    /// The name that the method gets.
    pub hidden_name: String,
    /// The names of the arguments that the wrapper hands on.
    pub arguments: Vec<String>,
    /// The policies, and the fallback where there is one.
    pub policy: PolicyAttrs,
    /// What the wrapper returns.
    pub output: WrapperOutput,
}

/// What a [`MethodPlan`] holds.
#[verifier::ext_equal]
pub struct MethodPlanView {
    /// The name that the method gets.
    pub hidden_name: Seq<char>,
    /// The names of the arguments that the wrapper hands on.
    pub arguments: Seq<String>,
    /// The policies, and the fallback where there is one.
    pub policy: PolicyAttrs,
    /// What the wrapper returns.
    pub output: WrapperOutput,
}

impl View for MethodPlan {
    type V = MethodPlanView;

    open spec fn view(&self) -> MethodPlanView {
        MethodPlanView {
            hidden_name: self.hidden_name@,
            arguments: self.arguments@,
            policy: self.policy,
            output: self.output,
        }
    }
}

/// What the wrapper around a method returns. With a fallback it returns what the
/// method returns, as the fallback does.
pub open spec fn wrapper_output(signature: Signature, policy: PolicyAttrs) -> Result<
    WrapperOutput,
    MethodError,
> {
    if policy.fallback_method is Some {
        Ok(WrapperOutput::Unchanged)
    } else {
        match output_types(signature.output) {
            Ok(types) => Ok(WrapperOutput::FaultTolerant(types)),
            Err(error) => Err(error),
        }
    }
}

/// How policies are put around a method, or what keeps them from it.
pub open spec fn method_plan(signature: Signature, policy: PolicyAttrs) -> Result<
    MethodPlanView,
    MethodError,
> {
    match obstacle(signature) {
        Some(error) => Err(error),
        None => match wrapper_output(signature, policy) {
            Ok(output) => Ok(
                MethodPlanView {
                    hidden_name: "__fault_tolerance_"@ + signature.name@,
                    arguments: argument_names(signature.arguments@)->Ok_0,
                    policy,
                    output,
                },
            ),
            Err(error) => Err(error),
        },
    }
}

/// Plans how policies are put around a method.
pub fn expand_method(signature: &Signature, policy: PolicyAttrs) -> (plan: Result<
    MethodPlan,
    MethodError,
>)
    ensures
        match plan {
            Ok(plan) => method_plan(*signature, policy) == Ok::<MethodPlanView, MethodError>(plan@),
            Err(error) => method_plan(*signature, policy) == Err::<MethodPlanView, MethodError>(
                error,
            ),
        },
{
    validate_method(signature)?;
    let arguments = argument_idents(signature)?;
    let hidden_name = "__fault_tolerance_".to_owned().concat(signature.name.as_str());
    let output = if policy.fallback_method.is_some() {
        WrapperOutput::Unchanged
    } else {
        WrapperOutput::FaultTolerant(fault_tolerance_output(&signature.output)?)
    };
    Ok(MethodPlan { hidden_name, arguments, policy, output })
}

/// What is wrong with an `impl` block, or with an item of it by its position.
#[derive(Debug, Clone, Copy, PartialEq, Eq)]
pub enum ExpansionError {
    /// The block implements a trait.
    TraitImpl,
    /// The attributes of a method are wrong.
    Attribute { position: usize, cause: AttributeError },
    /// No policies can be put around a method.
    Method { item: usize, error: MethodError },
    /// No method has a policy attribute.
    NoAnnotatedMethod,
}

impl ExpansionError {
    /// The error as text, where it is not for the parser to say.
    pub open spec fn text(self) -> Option<Seq<char>> {
        match self {
            ExpansionError::TraitImpl => Some(
                "#[fault_tolerant] must be used on an inherent impl block"@,
            ),
            ExpansionError::Attribute { cause, .. } => cause.text(),
            ExpansionError::Method { error, .. } => Some(error.text()),
            ExpansionError::NoAnnotatedMethod => Some(
                "#[fault_tolerant] requires at least one method annotated with a fault tolerance policy"@,
            ),
        }
    }

    /// The error as text, where it is not for the parser to say.
    pub fn message(&self) -> (message: Option<String>)
        ensures
            match message {
                Some(message) => self.text() == Some(message@),
                None => self.text() is None,
            },
    {
        match self {
            ExpansionError::TraitImpl => Some(
                "#[fault_tolerant] must be used on an inherent impl block".to_owned(),
            ),
            ExpansionError::Attribute { cause, .. } => cause.message(),
            ExpansionError::Method { error, .. } => Some(error.message()),
            ExpansionError::NoAnnotatedMethod => Some(
                "#[fault_tolerant] requires at least one method annotated with a fault tolerance policy".to_owned(),
            ),
        }
    }
}

/// What becomes of an item of an `impl` block, by its position.
#[derive(Debug)]
pub enum PlannedItem {
    /// The item stays as it is.
    Kept(usize),
    /// The method stays, and loses all its attributes.
    Stripped(usize),
    /// The method is hidden behind a wrapper. The wrapper keeps the attributes
    /// that ask for no policy, by their positions.
    Expanded(usize, MethodPlan, Vec<usize>),
}

/// What a [`PlannedItem`] holds.
#[verifier::ext_equal]
pub enum PlannedItemView {
    /// The item stays as it is.
    Kept(usize),
    /// The method stays, and loses all its attributes.
    Stripped(usize),
    /// The method is hidden behind a wrapper.
    Expanded(usize, MethodPlanView, Seq<usize>),
}

impl View for PlannedItem {
    type V = PlannedItemView;

    open spec fn view(&self) -> PlannedItemView {
        match *self {
            PlannedItem::Kept(position) => PlannedItemView::Kept(position),
            PlannedItem::Stripped(position) => PlannedItemView::Stripped(position),
            PlannedItem::Expanded(position, plan, attributes) => PlannedItemView::Expanded(
                position,
                plan@,
                attributes@,
            ),
        }
    }
}

impl PlannedItemView {
    /// The position of the item.
    pub open spec fn position(self) -> usize {
        match self {
            PlannedItemView::Kept(position) => position,
            PlannedItemView::Stripped(position) => position,
            PlannedItemView::Expanded(position, _, _) => position,
        }
    }
}

/// What becomes of an `impl` block: its items, and what is wrong with it.
#[derive(Debug)]
pub struct Expansion {
    /// The items, in order.
    pub items: Vec<PlannedItem>,
    /// What is wrong, in order.
    pub errors: Vec<ExpansionError>,
}

/// Whether an item is a method with a policy attribute.
pub open spec fn is_annotated(item: Item) -> bool {
    item matches Item::Method(method) && exists|i: int|
        0 <= i < method.attributes@.len() && #[trigger] method.attributes@[i].asks_for() is Some
}

/// What becomes of the item at a position, where it is not left out. A method
/// around which no policies can be put is left out.
pub open spec fn planned_item(item: Item, position: usize) -> Option<PlannedItemView> {
    match item {
        Item::Other => Some(PlannedItemView::Kept(position)),
        Item::Method(method) => match policy_of(method.attributes@) {
            Err(_) => Some(PlannedItemView::Stripped(position)),
            Ok(policy) => if !policy.enabled() {
                Some(PlannedItemView::Kept(position))
            } else {
                match method_plan(method.signature, policy) {
                    Ok(plan) => Some(
                        PlannedItemView::Expanded(
                            position,
                            plan,
                            retained(method.attributes@, method.attributes@.len()),
                        ),
                    ),
                    Err(_) => None,
                }
            },
        },
    }
}

/// What is wrong with the item at a position.
pub open spec fn item_error(item: Item, position: usize) -> Option<ExpansionError> {
    match item {
        Item::Other => None,
        Item::Method(method) => match policy_of(method.attributes@) {
            Err(cause) => Some(ExpansionError::Attribute { position, cause }),
            Ok(policy) => if !policy.enabled() {
                None
            } else {
                match method_plan(method.signature, policy) {
                    Ok(_) => None,
                    Err(error) => Some(ExpansionError::Method { item: position, error }),
                }
            },
        },
    }
}

/// A sequence with one more element, where there is one.
pub open spec fn with_some<A>(elements: Seq<A>, element: Option<A>) -> Seq<A> {
    match element {
        Some(element) => elements.push(element),
        None => elements,
    }
}

/// What becomes of the first `count` items.
pub open spec fn planned_items(items: Seq<Item>, count: nat) -> Seq<PlannedItemView>
    decreases count,
{
    if count == 0 {
        Seq::empty()
    } else {
        with_some(
            planned_items(items, (count - 1) as nat),
            planned_item(items[count - 1], (count - 1) as usize),
        )
    }
}

/// What is wrong with the first `count` items.
pub open spec fn item_errors(items: Seq<Item>, count: nat) -> Seq<ExpansionError>
    decreases count,
{
    if count == 0 {
        Seq::empty()
    } else {
        with_some(
            item_errors(items, (count - 1) as nat),
            item_error(items[count - 1], (count - 1) as usize),
        )
    }
}

/// Whether one of the first `count` items is a method with a policy attribute.
pub open spec fn has_annotated(items: Seq<Item>, count: nat) -> bool {
    exists|i: int| 0 <= i < count && #[trigger] is_annotated(items[i])
}

/// What is wrong with an `impl` block: that it implements a trait goes first,
/// then what is wrong with its items, and last that no method has a policy
/// attribute.
pub open spec fn block_errors(block: ImplBlock) -> Seq<ExpansionError> {
    let of_trait = if block.is_trait_impl {
        seq![ExpansionError::TraitImpl]
    } else {
        Seq::empty()
    };
    let of_items = item_errors(block.items@, block.items@.len());
    let of_block = if has_annotated(block.items@, block.items@.len()) {
        Seq::empty()
    } else {
        seq![ExpansionError::NoAnnotatedMethod]
    };
    of_trait + of_items + of_block
}

/// Whether a method has a policy attribute.
fn has_policy_attr(attributes: &Vec<Attribute>) -> (found: bool)
    ensures
        found == exists|i: int|
            0 <= i < attributes@.len() && #[trigger] attributes@[i].asks_for() is Some,
{
    let mut next: usize = 0;
    while next < attributes.len()
        invariant
            next <= attributes@.len(),
            forall|i: int| 0 <= i < next ==> #[trigger] attributes@[i].asks_for() is None,
        decreases attributes@.len() - next,
    {
        if is_policy_attr(&attributes[next]) {
            return true;
        }
        next = next + 1;
    }
    false
}

/// What becomes of a method, and what is wrong with it.
fn expand_item(method: &Method, position: usize) -> (expanded: (
    Option<PlannedItem>,
    Option<ExpansionError>,
))
    ensures
        match expanded.0 {
            Some(planned) => planned_item(Item::Method(*method), position) == Some(planned@),
            None => planned_item(Item::Method(*method), position) is None,
        },
        expanded.1 == item_error(Item::Method(*method), position),
{
    match take_policy_attrs(&method.attributes) {
        Ok((policy, attributes)) => {
            if !policy.is_enabled() {
                return (Some(PlannedItem::Kept(position)), None);
            }
            match expand_method(&method.signature, policy) {
                Ok(plan) => (Some(PlannedItem::Expanded(position, plan, attributes)), None),
                Err(error) => (None, Some(ExpansionError::Method { item: position, error })),
            }
        },
        Err(cause) => (
            Some(PlannedItem::Stripped(position)),
            Some(ExpansionError::Attribute { position, cause }),
        ),
    }
}

/// Plans how policies are put around the annotated methods of an `impl` block.
pub fn expand_fault_tolerant(block: &ImplBlock) -> (expansion: Expansion)
    ensures
        expansion.items@.map_values(|item: PlannedItem| item@) == planned_items(
            block.items@,
            block.items@.len(),
        ),
        expansion.errors@ == block_errors(*block),
{
    let mut errors: Vec<ExpansionError> = Vec::new();
    let mut items: Vec<PlannedItem> = Vec::new();
    let mut has_annotated_method: bool = false;
    if block.is_trait_impl {
        errors.push(ExpansionError::TraitImpl);
    }
    let ghost of_trait = errors@;
    let mut next: usize = 0;
    assert(items@.map_values(|item: PlannedItem| item@) =~= planned_items(block.items@, 0));
    assert(errors@ =~= of_trait + item_errors(block.items@, 0));
    while next < block.items.len()
        invariant
            next <= block.items@.len(),
            items@.map_values(|item: PlannedItem| item@) == planned_items(
                block.items@,
                next as nat,
            ),
            errors@ == of_trait + item_errors(block.items@, next as nat),
            has_annotated_method == has_annotated(block.items@, next as nat),
        decreases block.items@.len() - next,
    {
        let ghost items_before = items@;
        let ghost errors_before = errors@;
        let ghost annotated_before = has_annotated_method;
        match &block.items[next] {
            Item::Other => {
                items.push(PlannedItem::Kept(next));
            },
            Item::Method(method) => {
                let had_policy_attrs = has_policy_attr(&method.attributes);
                has_annotated_method = has_annotated_method || had_policy_attrs;
                let (planned, error) = expand_item(method, next);
                if let Some(planned) = planned {
                    items.push(planned);
                }
                if let Some(error) = error {
                    errors.push(error);
                }
            },
        }
        proof {
            let item = block.items@[next as int];
            let planned = planned_item(item, next);
            assert(items@.map_values(|item: PlannedItem| item@) =~= with_some(
                items_before.map_values(|item: PlannedItem| item@),
                planned,
            ));
            assert(errors@ =~= with_some(errors_before, item_error(item, next)));
            assert(with_some(
                of_trait + item_errors(block.items@, next as nat),
                item_error(item, next),
            ) =~= of_trait + with_some(
                item_errors(block.items@, next as nat),
                item_error(item, next),
            ));
            assert(has_annotated(block.items@, next as nat + 1) == (annotated_before
                || is_annotated(item)));
        }
        next = next + 1;
    }
    if !has_annotated_method {
        errors.push(ExpansionError::NoAnnotatedMethod);
    }
    assert(errors@ =~= block_errors(*block));
    Expansion { items, errors }
}

/// With a fallback the wrapper keeps what the method returns; without one it
/// shows the errors of the policies, around the types of the method's `Result`.
pub proof fn law_what_a_wrapper_returns(signature: Signature, policy: PolicyAttrs)
    requires
        method_plan(signature, policy) is Ok,
    ensures
        policy.fallback_method is Some ==> method_plan(signature, policy)->Ok_0.output
            == WrapperOutput::Unchanged,
        policy.fallback_method is None ==> output_types(signature.output) is Ok && method_plan(
            signature,
            policy,
        )->Ok_0.output == WrapperOutput::FaultTolerant(output_types(signature.output)->Ok_0),
{
}

/// An item stays as it is exactly where it is no method with a policy attribute,
/// and then nothing is wrong with it.
pub proof fn law_other_items_are_kept(item: Item, position: usize)
    ensures
        planned_item(item, position) == Some(PlannedItemView::Kept(position)) <==> !is_annotated(
            item,
        ),
        !is_annotated(item) ==> item_error(item, position) is None,
{
    if let Item::Method(method) = item {
        law_nothing_asked_enables_nothing(method.attributes@);
    }
}

/// The items of a block stay in order, each at most once. What becomes of an item
/// is decided by that item alone.
pub proof fn law_items_stay_in_order(items: Seq<Item>, count: nat)
    requires
        count <= items.len() <= usize::MAX,
    ensures
        forall|i: int|
            0 <= i < planned_items(items, count).len() ==> ({
                let planned = #[trigger] planned_items(items, count)[i];
                &&& planned.position() < count
                &&& planned_item(items[planned.position() as int], planned.position()) == Some(
                    planned,
                )
            }),
        forall|i: int, j: int|
            0 <= i < j < planned_items(items, count).len() ==> (#[trigger] planned_items(
                items,
                count,
            )[i]).position() < (#[trigger] planned_items(items, count)[j]).position(),
        forall|position: usize|
            position < count && #[trigger] planned_item(items[position as int], position) is Some
                ==> planned_items(items, count).contains(
                planned_item(items[position as int], position)->0,
            ),
    decreases count,
{
    if count > 0 {
        let before = planned_items(items, (count - 1) as nat);
        let all = planned_items(items, count);
        law_items_stay_in_order(items, (count - 1) as nat);
        assert forall|position: usize|
            position < count && #[trigger] planned_item(items[position as int], position) is Some
                implies all.contains(planned_item(items[position as int], position)->0) by {
            let planned = planned_item(items[position as int], position)->0;
            if position < count - 1 {
                let i = choose|i: int| 0 <= i < before.len() && before[i] == planned;
                assert(before.contains(planned));
                assert(all[i] == planned);
            } else {
                assert(all.last() == planned);
            }
        }
    }
}

/// No error is reported exactly where the block is inherent, some method has a
/// policy attribute, and nothing is wrong with any item.
pub proof fn law_when_no_error_is_reported(block: ImplBlock)
    ensures
        block_errors(block).len() == 0 <==> {
            &&& !block.is_trait_impl
            &&& has_annotated(block.items@, block.items@.len())
            &&& forall|i: int|
                0 <= i < block.items@.len() ==> #[trigger] item_error(
                    block.items@[i],
                    i as usize,
                ) is None
        },
{
    lemma_no_item_error(block.items@, block.items@.len());
}

/// The items have no error together exactly where none has one.
proof fn lemma_no_item_error(items: Seq<Item>, count: nat)
    ensures
        item_errors(items, count).len() == 0 <==> forall|i: int|
            0 <= i < count ==> #[trigger] item_error(items[i], i as usize) is None,
    decreases count,
{
    if count > 0 {
        lemma_no_item_error(items, (count - 1) as nat);
        if item_errors(items, count).len() == 0 {
            assert(item_error(items[count - 1], (count - 1) as usize) is None);
        }
    }
}

} // verus!
