//! Handles to the nodes of a network, the shapes that tell the kinds of node
//! apart, and the record that the network keeps for each node.

use vstd::prelude::*;
use crate::frp::message::MessageType;
use crate::frp::message::Value;
use crate::frp::message::ValueType;

verus! {

// ---------------------------------------------------------------------------
// Handles
// ---------------------------------------------------------------------------

/// A handle to a node together with the kind of message the node produces.
/// Having a handle to a node is like having a reference to a network endpoint
/// which transmits messages of a given kind.
#[derive(Clone, Copy, Debug, PartialEq, Eq, Structural)]
pub struct Node {
    pub id: usize,
    pub output: MessageType,
}

impl Node {
    /// Constructor.
    pub fn new(id: usize, output: MessageType) -> (r: Self)
        ensures
            r.id == id,
            r.output == output,
    {
        Node { id, output }
    }

    /// The identifier of the node.
    pub fn id(&self) -> (r: usize)
        ensures
            r == self.id,
    {
        self.id
    }

    /// The kind of message the node produces.
    pub fn output_type(&self) -> (r: MessageType)
        ensures
            r == self.output,
    {
        self.output
    }
}

/// A handle to a node that produces events.
#[derive(Clone, Copy, Debug, PartialEq, Eq, Structural)]
pub struct EventDynNode {
    pub id: usize,
}

/// A handle to a node that can be asked for the value of a behavior.
#[derive(Clone, Copy, Debug, PartialEq, Eq, Structural)]
pub struct BehaviorDynNode {
    pub id: usize,
}

impl EventDynNode {
    /// The handle without the knowledge that the node produces events.
    pub open spec fn spec_node(&self) -> Node {
        Node { id: self.id, output: MessageType::Event }
    }

    /// The handle without the knowledge that the node produces events.
    #[verifier::when_used_as_spec(spec_node)]
    pub fn node(&self) -> (r: Node)
        ensures
            r == self.spec_node(),
    {
        Node { id: self.id, output: MessageType::Event }
    }
}

impl BehaviorDynNode {
    /// The handle without the knowledge that the node is a behavior.
    pub open spec fn spec_node(&self) -> Node {
        Node { id: self.id, output: MessageType::Behavior }
    }

    /// The handle without the knowledge that the node is a behavior.
    #[verifier::when_used_as_spec(spec_node)]
    pub fn node(&self) -> (r: Node)
        ensures
            r == self.spec_node(),
    {
        Node { id: self.id, output: MessageType::Behavior }
    }
}

impl Node {
    /// This handle as a handle to a node that produces events, if it is one.
    pub fn event(&self) -> (r: Option<EventDynNode>)
        ensures
            r == (if self.output is Event {
                Some(EventDynNode { id: self.id })
            } else {
                None
            }),
    {
        match self.output {
            MessageType::Event => Some(EventDynNode { id: self.id }),
            MessageType::Behavior => None,
        }
    }

    /// This handle as a handle to a behavior, if it is one.
    pub fn behavior(&self) -> (r: Option<BehaviorDynNode>)
        ensures
            r == (if self.output is Behavior {
                Some(BehaviorDynNode { id: self.id })
            } else {
                None
            }),
    {
        match self.output {
            MessageType::Event => None,
            MessageType::Behavior => Some(BehaviorDynNode { id: self.id }),
        }
    }
}

/// A handle to a node of any kind, as the walk over a graph sees it.
#[derive(Clone, Copy, Debug, PartialEq, Eq, Structural)]
pub struct AnyNode {
    pub id: usize,
}

impl AnyNode {
    /// The handle of the node with the given identifier.
    pub fn new(id: usize) -> (r: Self)
        ensures
            r.id == id,
    {
        AnyNode { id }
    }

    /// The identifier of the node.
    pub fn id(&self) -> (r: usize)
        ensures
            r == self.id,
    {
        self.id
    }
}

/// A handle to any node which consumes events, as it stands in the list of
/// targets of the node it listens to.
#[derive(Clone, Copy, Debug, PartialEq, Eq, Structural)]
pub struct AnyEventConsumer {
    pub raw: usize,
}

impl AnyEventConsumer {
    /// Constructor.
    pub fn new(node: AnyNode) -> (r: Self)
        ensures
            r.raw == node.id,
    {
        AnyEventConsumer { raw: node.id }
    }
}

// ---------------------------------------------------------------------------
// Shapes
// ---------------------------------------------------------------------------

/// Internal definition of the source node. A source of behavior kind stores
/// its current value; a source of event kind stores nothing that is read.
#[derive(Clone, Copy, Debug)]
pub struct SourceShape {
    pub storage: Value,
}

/// Internal definition of the merge node.
#[derive(Clone, Copy, Debug)]
pub struct MergeShape {
    pub source1: Node,
    pub source2: Node,
}

/// Internal definition of the toggle node.
#[derive(Clone, Copy, Debug)]
pub struct ToggleShape {
    pub source: Node,
    pub status: bool,
}

/// Internal definition of the hold node.
#[derive(Clone, Copy, Debug)]
pub struct HoldShape {
    pub source: Node,
    pub last_val: Value,
}

/// Internal definition of the recursive node. Its source is empty until the
/// node is initialized.
#[derive(Clone, Copy, Debug)]
pub struct RecursiveShape2 {
    pub source: Option<Node>,
}

/// Internal definition of the sample node.
#[derive(Clone, Copy, Debug)]
pub struct SampleShape {
    pub source1: Node,
    pub source2: Node,
}

/// Internal definition of the `Gate` node.
#[derive(Clone, Copy, Debug)]
pub struct GateShape {
    pub source1: Node,
    pub source2: Node,
}

/// The function of a lambda node with one input: a function of the caller,
/// or the function that gives one value whatever it gets.
pub enum Lambda1Func<F> {
    Custom(F),
    Constant(Value),
}

/// Internal definition of the lambda node with one input.
pub struct LambdaShape<F> {
    pub source: Node,
    pub func: Lambda1Func<F>,
}

/// The function of a lambda node with two inputs.
pub struct Lambda2Func<G> {
    pub raw: G,
}

/// Internal definition of the lambda node with two inputs.
pub struct Lambda2Shape<G> {
    pub source1: Node,
    pub source2: Node,
    pub func: Lambda2Func<G>,
}

/// The closed set of kinds of node.
pub enum Shape<F, G> {
    Source(SourceShape),
    Merge(MergeShape),
    Toggle(ToggleShape),
    Hold(HoldShape),
    Recursive(RecursiveShape2),
    Sample(SampleShape),
    Gate(GateShape),
    Lambda(LambdaShape<F>),
    Lambda2(Lambda2Shape<G>),
}

/// The result of the function `f` on `x`.
pub open spec fn lambda1_result<F: Fn(&Value) -> Value>(f: F, x: Value) -> Value {
    choose|y: Value| call_ensures(f, (&x,), y)
}

/// The function `f` can be called on every value and its result depends on
/// the argument alone.
pub open spec fn lambda1_is_pure<F: Fn(&Value) -> Value>(f: F) -> bool {
    &&& forall|x: Value| call_requires(f, (&x,))
    &&& forall|x: Value, y1: Value, y2: Value|
        call_ensures(f, (&x,), y1) && call_ensures(f, (&x,), y2) ==> y1 == y2
}

/// The result of the function `g` on `x1` and `x2`.
pub open spec fn lambda2_result<G: Fn(&Value, &Value) -> Value>(g: G, x1: Value, x2: Value) -> Value {
    choose|y: Value| call_ensures(g, (&x1, &x2), y)
}

/// The function `g` can be called on every pair of values and its result
/// depends on the arguments alone.
pub open spec fn lambda2_is_pure<G: Fn(&Value, &Value) -> Value>(g: G) -> bool {
    &&& forall|x1: Value, x2: Value| call_requires(g, (&x1, &x2))
    &&& forall|x1: Value, x2: Value, y1: Value, y2: Value|
        call_ensures(g, (&x1, &x2), y1) && call_ensures(g, (&x1, &x2), y2) ==> y1 == y2
}

impl<F: Fn(&Value) -> Value> Lambda1Func<F> {
    /// The result of the function on `x`.
    pub open spec fn spec_apply(self, x: Value) -> Value {
        match self {
            Lambda1Func::Custom(f) => lambda1_result(f, x),
            Lambda1Func::Constant(value) => value,
        }
    }

    /// The function can be called on every value and its result depends on
    /// the argument alone.
    pub open spec fn spec_is_pure(self) -> bool {
        match self {
            Lambda1Func::Custom(f) => lambda1_is_pure(f),
            Lambda1Func::Constant(_) => true,
        }
    }

    /// Wraps a function.
    pub fn new(raw: F) -> (r: Self)
        ensures
            r == Lambda1Func::Custom(raw),
    {
        Lambda1Func::Custom(raw)
    }

    /// The function that gives `value` whatever it gets.
    pub fn constant(value: Value) -> (r: Self)
        ensures
            r == Lambda1Func::<F>::Constant(value),
    {
        Lambda1Func::Constant(value)
    }

    /// Applies the function.
    pub fn call(&self, x: &Value) -> (r: Value)
        requires
            self.spec_is_pure(),
        ensures
            r == self.spec_apply(*x),
    {
        match self {
            Lambda1Func::Custom(f) => f(x),
            Lambda1Func::Constant(value) => *value,
        }
    }
}

impl<G: Fn(&Value, &Value) -> Value> Lambda2Func<G> {
    /// Wraps a function.
    pub fn new(raw: G) -> (r: Self)
        ensures
            r.raw == raw,
    {
        Lambda2Func { raw }
    }

    /// Applies the function.
    pub fn call(&self, x1: &Value, x2: &Value) -> (r: Value)
        requires
            lambda2_is_pure(self.raw),
        ensures
            r == lambda2_result(self.raw, *x1, *x2),
    {
        (self.raw)(x1, x2)
    }
}

impl<F, G> Shape<F, G> {
    /// The nodes that this shape reads from, in the order of its fields.
    pub open spec fn spec_inputs(self) -> Seq<Node> {
        match self {
            Shape::Source(_) => seq![],
            Shape::Merge(s) => seq![s.source1, s.source2],
            Shape::Toggle(s) => seq![s.source],
            Shape::Hold(s) => seq![s.source],
            Shape::Recursive(s) => match s.source {
                Some(n) => seq![n],
                None => seq![],
            },
            Shape::Sample(s) => seq![s.source1, s.source2],
            Shape::Gate(s) => seq![s.source1, s.source2],
            Shape::Lambda(s) => seq![s.source],
            Shape::Lambda2(s) => seq![s.source1, s.source2],
        }
    }

    /// The name of the kind of node, as a graph shows it.
    pub open spec fn spec_kind_name(self) -> Seq<char> {
        match self {
            Shape::Source(_) => "Source"@,
            Shape::Merge(_) => "Merge"@,
            Shape::Toggle(_) => "Toggle"@,
            Shape::Hold(_) => "Hold"@,
            Shape::Recursive(_) => "Recursive"@,
            Shape::Sample(_) => "Sample"@,
            Shape::Gate(_) => "Gate"@,
            Shape::Lambda(_) => "Lambda"@,
            Shape::Lambda2(_) => "Lambda2"@,
        }
    }
}

// ---------------------------------------------------------------------------
// The record of a node
// ---------------------------------------------------------------------------

/// What the network keeps for one node: the label, the identifier under which
/// a graph shows it, the kind and type of its output, its shape, and the
/// consumers that it notifies, in the order in which they were registered.
pub struct NodeWrapperTemplateData<F, G> {
    pub label: String,
    pub display_id: usize,
    pub output: MessageType,
    pub value_type: ValueType,
    pub shape: Shape<F, G>,
    pub targets: Vec<AnyEventConsumer>,
}

/// The mathematical model of the record of one node.
pub struct NodeModel<F, G> {
    pub label: Seq<char>,
    pub display_id: usize,
    pub output: MessageType,
    pub value_type: ValueType,
    pub shape: Shape<F, G>,
    pub targets: Seq<AnyEventConsumer>,
}

impl<F, G> View for NodeWrapperTemplateData<F, G> {
    type V = NodeModel<F, G>;

    open spec fn view(&self) -> NodeModel<F, G> {
        NodeModel {
            label: self.label@,
            display_id: self.display_id,
            output: self.output,
            value_type: self.value_type,
            shape: self.shape,
            targets: self.targets@,
        }
    }
}

impl<F, G> NodeModel<F, G> {
    /// This record with another shape.
    pub open spec fn with_shape(self, shape: Shape<F, G>) -> Self {
        NodeModel { shape, ..self }
    }

    /// This record with another display identifier.
    pub open spec fn with_display_id(self, display_id: usize) -> Self {
        NodeModel { display_id, ..self }
    }

    /// This record with one more target at the end.
    pub open spec fn with_target(self, target: AnyEventConsumer) -> Self {
        NodeModel { targets: self.targets.push(target), ..self }
    }
}

impl<F, G> NodeWrapperTemplateData<F, G> {
    /// Constructor. The record has no targets yet and the display identifier 0.
    pub fn construct(label: &str, shape: Shape<F, G>, output: MessageType, value_type: ValueType) -> (r: Self)
        ensures
            r@ == (NodeModel {
                label: label@,
                display_id: 0,
                output,
                value_type,
                shape,
                targets: Seq::<AnyEventConsumer>::empty(),
            }),
    {
        NodeWrapperTemplateData {
            label: String::from_str(label),
            display_id: 0,
            output,
            value_type,
            shape,
            targets: Vec::new(),
        }
    }
}

} // verus!
