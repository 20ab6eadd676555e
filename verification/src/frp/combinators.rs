//! The combinators: one kind of handle for each kind of node, with the
//! constructor that wires a node of the kind into a network.

use vstd::prelude::*;
use crate::frp::message::EventMessage;
use crate::frp::message::MessageType;
use crate::frp::message::Value;
use crate::frp::message::ValueType;
use crate::frp::model::emit_event;
use crate::frp::model::feed_forward;
use crate::frp::model::handle_ok;
use crate::frp::model::shape_ok;
use crate::frp::network::Network;
use crate::frp::network::Propagation;
use crate::frp::network::same_wiring;
use crate::frp::node::AnyEventConsumer;
use crate::frp::node::AnyNode;
use crate::frp::node::GateShape;
use crate::frp::node::HoldShape;
use crate::frp::node::lambda1_is_pure;
use crate::frp::node::Lambda1Func;
use crate::frp::node::lambda2_is_pure;
use crate::frp::node::Lambda2Func;
use crate::frp::node::Lambda2Shape;
use crate::frp::node::LambdaShape;
use crate::frp::node::MergeShape;
use crate::frp::node::Node;
use crate::frp::node::NodeModel;
use crate::frp::node::NodeWrapperTemplateData;
use crate::frp::node::RecursiveShape2;
use crate::frp::node::SampleShape;
use crate::frp::node::Shape;
use crate::frp::node::SourceShape;
use crate::frp::node::ToggleShape;
use crate::frp::traits::AddTarget;
use crate::frp::typing::emissions_typed;
use crate::frp::typing::func_typed;
use crate::frp::typing::lambda1_typed;
use crate::frp::typing::lambda2_typed;
use crate::frp::typing::lemma_with_listener_typed;
use crate::frp::typing::lemma_with_node_typed;
use crate::frp::typing::lemma_with_upstream_typed;
use crate::frp::typing::shape_typed;
use crate::frp::typing::well_typed;
use crate::frp::wiring::lemma_with_listener_feed_forward;
use crate::frp::wiring::lemma_with_listener_well_formed;
use crate::frp::wiring::lemma_with_node_feed_forward;
use crate::frp::wiring::lemma_with_node_well_formed;
use crate::frp::wiring::lemma_with_upstream_feed_forward;
use crate::frp::wiring::lemma_with_upstream_well_formed;
use crate::frp::wiring::WiringError;
use crate::frp::wiring::with_listener;
use crate::frp::wiring::with_node;
use crate::frp::wiring::with_upstream;

verus! {

// ---------------------------------------------------------------------------
// The outer layer of every node
// ---------------------------------------------------------------------------

/// The outer layer of every node: a handle to the record that the network
/// keeps for it.
#[derive(Clone, Copy, Debug, PartialEq, Eq, Structural)]
pub struct NodeWrapperTemplate {
    pub id: usize,
}

/// The outer layer of every node.
pub type NodeWrapper = NodeWrapperTemplate;

impl NodeWrapper {
    /// Constructor. Adds a node with the given shape to the network. The
    /// node is shown under its own identifier.
    pub fn construct<F: Fn(&Value) -> Value, G: Fn(&Value, &Value) -> Value>(
        net: &mut Network<F, G>,
        label: &str,
        shape: Shape<F, G>,
        output: MessageType,
        value_type: ValueType,
    ) -> (r: Self)
        ensures
            r.id == old(net)@.len(),
            final(net)@ == with_node(old(net)@, label@, output, value_type, shape),
            final(net).spec_depth_limit() == old(net).spec_depth_limit(),
            old(net).wf() && shape_ok(old(net)@, shape, output) ==> final(net).wf(),
            feed_forward(old(net)@) ==> feed_forward(final(net)@),
            old(net).wf() && well_typed(old(net)@) && shape_ok(old(net)@, shape, output) && shape_typed(
                old(net)@,
                shape,
                value_type,
            ) ==> well_typed(final(net)@),
    {
        let data = NodeWrapperTemplateData::construct(label, shape, output, value_type);
        let id = net.add_node(data);
        net.set_display_id(id, id);
        proof {
            assert(net@ =~= with_node(old(net)@, label@, output, value_type, shape));
            if old(net).wf() && shape_ok(old(net)@, shape, output) {
                lemma_with_node_well_formed(old(net)@, label@, output, value_type, shape);
            }
            if feed_forward(old(net)@) {
                lemma_with_node_feed_forward(old(net)@, label@, output, value_type, shape);
            }
            if old(net).wf() && well_typed(old(net)@) && shape_ok(old(net)@, shape, output) && shape_typed(
                old(net)@,
                shape,
                value_type,
            ) {
                lemma_with_node_typed(old(net)@, label@, output, value_type, shape);
            }
        }
        NodeWrapperTemplate { id }
    }
}

impl NodeWrapperTemplate {
    /// Sends an event to all the targets of the node, in the order in which
    /// they were registered. Each target reacts, and what it sends on is
    /// delivered, before the next target is notified.
    pub fn emit_event<F: Fn(&Value) -> Value, G: Fn(&Value, &Value) -> Value>(
        &self,
        net: &mut Network<F, G>,
        event: &EventMessage<Value>,
    ) -> (r: Propagation)
        requires
            old(net).wf(),
            self.id < old(net)@.len(),
        ensures
            final(net).wf(),
            same_wiring(old(net)@, final(net)@),
            final(net).spec_depth_limit() == old(net).spec_depth_limit(),
            final(net)@ == emit_event(
                old(net)@,
                self.id as int,
                event.0,
                old(net).spec_depth_limit() as nat,
            ).nodes,
            r.emissions@ == emit_event(
                old(net)@,
                self.id as int,
                event.0,
                old(net).spec_depth_limit() as nat,
            ).emissions,
            r.status == emit_event(
                old(net)@,
                self.id as int,
                event.0,
                old(net).spec_depth_limit() as nat,
            ).status,
            well_typed(old(net)@) && event.0.spec_value_type() == old(net)@[self.id as int].value_type
                ==> well_typed(final(net)@) && emissions_typed(old(net)@, r.emissions@),
    {
        net.propagate(self.id, event.0)
    }
}

// ---------------------------------------------------------------------------
// Operations on handles
// ---------------------------------------------------------------------------

impl Node {
    /// Sends an event from this node. The node has to produce events.
    pub fn emit<F: Fn(&Value) -> Value, G: Fn(&Value, &Value) -> Value>(
        &self,
        net: &mut Network<F, G>,
        event: &EventMessage<Value>,
    ) -> (r: Result<Propagation, WiringError>)
        requires
            old(net).wf(),
        ensures
            final(net).wf(),
            same_wiring(old(net)@, final(net)@),
            final(net).spec_depth_limit() == old(net).spec_depth_limit(),
            !handle_ok(old(net)@, *self) ==> (r matches Err(e) && e == WiringError::UnknownNode && final(net)@
                == old(net)@),
            handle_ok(old(net)@, *self) && self.output is Behavior ==> (r matches Err(e) && e
                == WiringError::NotAnEvent && final(net)@ == old(net)@),
            handle_ok(old(net)@, *self) && self.output is Event ==> (r matches Ok(p) && {
                let o = emit_event(old(net)@, self.id as int, event.0, old(net).spec_depth_limit() as nat);
                &&& final(net)@ == o.nodes
                &&& p.emissions@ == o.emissions
                &&& p.status == o.status
                &&& well_typed(old(net)@) && event.0.spec_value_type() == old(net)@[self.id as int].value_type
                    ==> emissions_typed(old(net)@, p.emissions@)
            }),
            well_typed(old(net)@) && (handle_ok(old(net)@, *self) ==> event.0.spec_value_type()
                == old(net)@[self.id as int].value_type) ==> well_typed(final(net)@),
    {
        if !net.knows(self) {
            return Err(WiringError::UnknownNode);
        }
        match self.output {
            MessageType::Behavior => Err(WiringError::NotAnEvent),
            MessageType::Event => Ok(net.propagate(self.id, event.0)),
        }
    }
}

// ---------------------------------------------------------------------------
// Source
// ---------------------------------------------------------------------------

/// Source is a begin point in the network. It is able to emit events or to
/// hold the first value of a behavior.
#[derive(Clone, Copy, Debug, PartialEq, Eq, Structural)]
pub struct Source {
    pub node: Node,
}

/// The network after a source was added to it.
pub open spec fn source_wired<F, G>(
    nodes: Seq<NodeModel<F, G>>,
    label: Seq<char>,
    output: MessageType,
    value_type: ValueType,
) -> Seq<NodeModel<F, G>> {
    with_node(
        nodes,
        label,
        output,
        value_type,
        Shape::Source(SourceShape { storage: value_type.spec_default_value() }),
    )
}

impl Source {
    /// Constructor. A source of behavior kind holds the default value of its
    /// type.
    pub fn new_named<F: Fn(&Value) -> Value, G: Fn(&Value, &Value) -> Value>(
        net: &mut Network<F, G>,
        label: &str,
        output: MessageType,
        value_type: ValueType,
    ) -> (r: Self)
        requires
            old(net).wf(),
        ensures
            final(net).wf(),
            final(net).spec_depth_limit() == old(net).spec_depth_limit(),
            feed_forward(old(net)@) ==> feed_forward(final(net)@),
            well_typed(old(net)@) ==> well_typed(final(net)@),
            r.node == (Node { id: old(net)@.len() as usize, output }),
            final(net)@ == source_wired(old(net)@, label@, output, value_type),
    {
        let shape = Shape::Source(SourceShape { storage: value_type.default_value() });
        let wrapper = NodeWrapper::construct(net, label, shape, output, value_type);
        Source { node: Node::new(wrapper.id, output) }
    }
}

// ---------------------------------------------------------------------------
// Merge
// ---------------------------------------------------------------------------

/// Merge passes on what either of its two inputs sends.
#[derive(Clone, Copy, Debug, PartialEq, Eq, Structural)]
pub struct Merge {
    pub node: Node,
}

/// Why a merge of the two nodes cannot be wired, if it cannot.
pub open spec fn merge_error<F, G>(nodes: Seq<NodeModel<F, G>>, source1: Node, source2: Node) -> Option<
    WiringError,
> {
    if !handle_ok(nodes, source1) || !handle_ok(nodes, source2) {
        Some(WiringError::UnknownNode)
    } else if !(source1.output is Event) || !(source2.output is Event) {
        Some(WiringError::NotAnEvent)
    } else if nodes[source1.id as int].value_type != nodes[source2.id as int].value_type {
        Some(WiringError::ValueTypeMismatch)
    } else {
        None
    }
}

/// The network after a merge of the two nodes was added to it: the merge
/// listens to the first input, then to the second.
pub open spec fn merge_wired<F, G>(
    nodes: Seq<NodeModel<F, G>>,
    label: Seq<char>,
    source1: Node,
    source2: Node,
) -> Seq<NodeModel<F, G>> {
    let id = nodes.len() as int;
    let added = with_node(
        nodes,
        label,
        MessageType::Event,
        nodes[source1.id as int].value_type,
        Shape::Merge(MergeShape { source1, source2 }),
    );
    with_listener(with_listener(added, source1, id), source2, id)
}

impl Merge {
    /// Constructor. Both inputs have to produce events of one type.
    pub fn new_named<F: Fn(&Value) -> Value, G: Fn(&Value, &Value) -> Value>(
        net: &mut Network<F, G>,
        label: &str,
        source1: &Node,
        source2: &Node,
    ) -> (r: Result<Self, WiringError>)
        requires
            old(net).wf(),
        ensures
            final(net).wf(),
            final(net).spec_depth_limit() == old(net).spec_depth_limit(),
            feed_forward(old(net)@) ==> feed_forward(final(net)@),
            well_typed(old(net)@) ==> well_typed(final(net)@),
            match merge_error(old(net)@, *source1, *source2) {
                Some(e) => r == Err::<Self, WiringError>(e) && final(net)@ == old(net)@,
                None => r == Ok::<Self, WiringError>(
                    Merge { node: Node { id: old(net)@.len() as usize, output: MessageType::Event } },
                ) && final(net)@ == merge_wired(old(net)@, label@, *source1, *source2),
            },
    {
        if !net.knows(source1) || !net.knows(source2) {
            return Err(WiringError::UnknownNode);
        }
        match (source1.output, source2.output) {
            (MessageType::Event, MessageType::Event) => {},
            _ => {
                return Err(WiringError::NotAnEvent);
            },
        }
        let value_type = net.value_type(source1.id);
        if value_type != net.value_type(source2.id) {
            return Err(WiringError::ValueTypeMismatch);
        }
        let shape = Shape::Merge(MergeShape { source1: *source1, source2: *source2 });
        let wrapper = NodeWrapper::construct(net, label, shape, MessageType::Event, value_type);
        let ghost added = net@;
        source1.add_target(net, AnyEventConsumer::new(AnyNode::new(wrapper.id)));
        proof {
            lemma_with_listener_well_formed(added, *source1, wrapper.id as int);
            if well_typed(added) {
                net.lemma_len_bounded();
                lemma_with_listener_typed(added, *source1, wrapper.id as int);
            }
            if feed_forward(added) {
                net.lemma_len_bounded();
                lemma_with_listener_feed_forward(added, *source1, wrapper.id as int);
            }
        }
        let ghost listened = net@;
        source2.add_target(net, AnyEventConsumer::new(AnyNode::new(wrapper.id)));
        proof {
            lemma_with_listener_well_formed(listened, *source2, wrapper.id as int);
            if well_typed(listened) {
                net.lemma_len_bounded();
                lemma_with_listener_typed(listened, *source2, wrapper.id as int);
            }
            if feed_forward(listened) {
                net.lemma_len_bounded();
                lemma_with_listener_feed_forward(listened, *source2, wrapper.id as int);
            }
        }
        Ok(Merge { node: Node::new(wrapper.id, MessageType::Event) })
    }
}

// ---------------------------------------------------------------------------
// Toggle
// ---------------------------------------------------------------------------

/// Toggle keeps a flag, which it flips and sends on with every event that
/// it receives.
#[derive(Clone, Copy, Debug, PartialEq, Eq, Structural)]
pub struct Toggle {
    pub node: Node,
}

/// Why a node that listens to the events of `source` cannot be wired, if it
/// cannot.
pub open spec fn listener_error<F, G>(nodes: Seq<NodeModel<F, G>>, source: Node) -> Option<WiringError> {
    if !handle_ok(nodes, source) {
        Some(WiringError::UnknownNode)
    } else if !(source.output is Event) {
        Some(WiringError::NotAnEvent)
    } else {
        None
    }
}

/// The network after a toggle was added to it. The flag of the toggle is
/// `false`.
pub open spec fn toggle_wired<F, G>(nodes: Seq<NodeModel<F, G>>, label: Seq<char>, source: Node) -> Seq<
    NodeModel<F, G>,
> {
    let added = with_node(
        nodes,
        label,
        MessageType::Event,
        ValueType::Bool,
        Shape::Toggle(ToggleShape { source, status: false }),
    );
    with_listener(added, source, nodes.len() as int)
}

impl Toggle {
    /// Constructor. The input has to produce events.
    pub fn new_named<F: Fn(&Value) -> Value, G: Fn(&Value, &Value) -> Value>(
        net: &mut Network<F, G>,
        label: &str,
        source: &Node,
    ) -> (r: Result<Self, WiringError>)
        requires
            old(net).wf(),
        ensures
            final(net).wf(),
            final(net).spec_depth_limit() == old(net).spec_depth_limit(),
            feed_forward(old(net)@) ==> feed_forward(final(net)@),
            well_typed(old(net)@) ==> well_typed(final(net)@),
            match listener_error(old(net)@, *source) {
                Some(e) => r == Err::<Self, WiringError>(e) && final(net)@ == old(net)@,
                None => r == Ok::<Self, WiringError>(
                    Toggle { node: Node { id: old(net)@.len() as usize, output: MessageType::Event } },
                ) && final(net)@ == toggle_wired(old(net)@, label@, *source),
            },
    {
        if !net.knows(source) {
            return Err(WiringError::UnknownNode);
        }
        match source.output {
            MessageType::Event => {},
            MessageType::Behavior => {
                return Err(WiringError::NotAnEvent);
            },
        }
        let shape = Shape::Toggle(ToggleShape { source: *source, status: false });
        let wrapper = NodeWrapper::construct(net, label, shape, MessageType::Event, ValueType::Bool);
        let ghost added = net@;
        source.add_target(net, AnyEventConsumer::new(AnyNode::new(wrapper.id)));
        proof {
            lemma_with_listener_well_formed(added, *source, wrapper.id as int);
            if well_typed(added) {
                net.lemma_len_bounded();
                lemma_with_listener_typed(added, *source, wrapper.id as int);
            }
            if feed_forward(added) {
                net.lemma_len_bounded();
                lemma_with_listener_feed_forward(added, *source, wrapper.id as int);
            }
        }
        Ok(Toggle { node: Node::new(wrapper.id, MessageType::Event) })
    }
}

// ---------------------------------------------------------------------------
// Hold
// ---------------------------------------------------------------------------

/// Hold turns a stream of events into a behavior: it remembers the value of
/// the last event that it received.
#[derive(Clone, Copy, Debug, PartialEq, Eq, Structural)]
pub struct Hold {
    pub node: Node,
}

/// The network after a hold was added to it. The hold has the default value
/// of the type of its input.
pub open spec fn hold_wired<F, G>(nodes: Seq<NodeModel<F, G>>, label: Seq<char>, source: Node) -> Seq<
    NodeModel<F, G>,
> {
    let value_type = nodes[source.id as int].value_type;
    let added = with_node(
        nodes,
        label,
        MessageType::Behavior,
        value_type,
        Shape::Hold(HoldShape { source, last_val: value_type.spec_default_value() }),
    );
    with_listener(added, source, nodes.len() as int)
}

impl Hold {
    /// Constructor. The input has to produce events.
    pub fn new_named<F: Fn(&Value) -> Value, G: Fn(&Value, &Value) -> Value>(
        net: &mut Network<F, G>,
        label: &str,
        source: &Node,
    ) -> (r: Result<Self, WiringError>)
        requires
            old(net).wf(),
        ensures
            final(net).wf(),
            final(net).spec_depth_limit() == old(net).spec_depth_limit(),
            feed_forward(old(net)@) ==> feed_forward(final(net)@),
            well_typed(old(net)@) ==> well_typed(final(net)@),
            match listener_error(old(net)@, *source) {
                Some(e) => r == Err::<Self, WiringError>(e) && final(net)@ == old(net)@,
                None => r == Ok::<Self, WiringError>(
                    Hold { node: Node { id: old(net)@.len() as usize, output: MessageType::Behavior } },
                ) && final(net)@ == hold_wired(old(net)@, label@, *source),
            },
    {
        if !net.knows(source) {
            return Err(WiringError::UnknownNode);
        }
        match source.output {
            MessageType::Event => {},
            MessageType::Behavior => {
                return Err(WiringError::NotAnEvent);
            },
        }
        let value_type = net.value_type(source.id);
        let shape = Shape::Hold(HoldShape { source: *source, last_val: value_type.default_value() });
        let wrapper = NodeWrapper::construct(net, label, shape, MessageType::Behavior, value_type);
        let ghost added = net@;
        source.add_target(net, AnyEventConsumer::new(AnyNode::new(wrapper.id)));
        proof {
            lemma_with_listener_well_formed(added, *source, wrapper.id as int);
            if well_typed(added) {
                net.lemma_len_bounded();
                lemma_with_listener_typed(added, *source, wrapper.id as int);
            }
            if feed_forward(added) {
                net.lemma_len_bounded();
                lemma_with_listener_feed_forward(added, *source, wrapper.id as int);
            }
        }
        Ok(Hold { node: Node::new(wrapper.id, MessageType::Behavior) })
    }
}

// ---------------------------------------------------------------------------
// Recursive
// ---------------------------------------------------------------------------

/// Recursive is the entry of a feedback loop: a node that is made first and
/// gets its upstream node later. Once it is initialized it passes on what
/// the upstream node sends.
#[derive(Clone, Copy, Debug, PartialEq, Eq, Structural)]
pub struct Recursive {
    pub node: Node,
}

/// The network after an empty recursive node was added to it.
pub open spec fn recursive_wired<F, G>(
    nodes: Seq<NodeModel<F, G>>,
    label: Seq<char>,
    output: MessageType,
    value_type: ValueType,
) -> Seq<NodeModel<F, G>> {
    with_node(nodes, label, output, value_type, Shape::Recursive(RecursiveShape2 { source: None }))
}

/// Why the recursive node cannot get `upstream` as its upstream node, if it
/// cannot.
pub open spec fn initialize_error<F, G>(nodes: Seq<NodeModel<F, G>>, node: Node, upstream: Node) -> Option<
    WiringError,
> {
    if !handle_ok(nodes, node) || !(nodes[node.id as int].shape is Recursive) || !handle_ok(
        nodes,
        upstream,
    ) {
        Some(WiringError::UnknownNode)
    } else if upstream.output != node.output {
        Some(WiringError::KindMismatch)
    } else if nodes[upstream.id as int].value_type != nodes[node.id as int].value_type {
        Some(WiringError::ValueTypeMismatch)
    } else if nodes[node.id as int].shape matches Shape::Recursive(s) && s.source is Some {
        Some(WiringError::AlreadyInitialized)
    } else {
        None
    }
}

impl Recursive {
    /// Constructor. The node has no upstream node yet.
    pub fn new_named<F: Fn(&Value) -> Value, G: Fn(&Value, &Value) -> Value>(
        net: &mut Network<F, G>,
        label: &str,
        output: MessageType,
        value_type: ValueType,
    ) -> (r: Self)
        requires
            old(net).wf(),
        ensures
            final(net).wf(),
            final(net).spec_depth_limit() == old(net).spec_depth_limit(),
            feed_forward(old(net)@) ==> feed_forward(final(net)@),
            well_typed(old(net)@) ==> well_typed(final(net)@),
            r.node == (Node { id: old(net)@.len() as usize, output }),
            final(net)@ == recursive_wired(old(net)@, label@, output, value_type),
    {
        let shape = Shape::Recursive(RecursiveShape2 { source: None });
        let wrapper = NodeWrapper::construct(net, label, shape, output, value_type);
        Recursive { node: Node::new(wrapper.id, output) }
    }

    /// Gives the node its upstream node: the node becomes a target of the
    /// upstream node and is from now on shown under the identifier of the
    /// upstream node. This can be done once.
    pub fn initialize<F: Fn(&Value) -> Value, G: Fn(&Value, &Value) -> Value>(
        &self,
        net: &mut Network<F, G>,
        upstream: &Node,
    ) -> (r: Result<(), WiringError>)
        requires
            old(net).wf(),
        ensures
            final(net).wf(),
            final(net).spec_depth_limit() == old(net).spec_depth_limit(),
            feed_forward(old(net)@) && (upstream.output is Behavior || upstream.id < self.node.id) ==> feed_forward(
                final(net)@,
            ),
            well_typed(old(net)@) ==> well_typed(final(net)@),
            match initialize_error(old(net)@, self.node, *upstream) {
                Some(e) => r == Err::<(), WiringError>(e) && final(net)@ == old(net)@,
                None => r is Ok && final(net)@ == with_upstream(old(net)@, self.node.id as int, *upstream),
            },
            r is Ok ==> final(net)@[self.node.id as int].display_id == final(net)@[upstream.id as int].display_id,
    {
        if !net.knows(&self.node) || !net.knows(upstream) {
            return Err(WiringError::UnknownNode);
        }
        if !net.is_recursive(self.node.id) {
            return Err(WiringError::UnknownNode);
        }
        if upstream.output != self.node.output {
            return Err(WiringError::KindMismatch);
        }
        if net.value_type(upstream.id) != net.value_type(self.node.id) {
            return Err(WiringError::ValueTypeMismatch);
        }
        if net.recursive_source(self.node.id).is_some() {
            return Err(WiringError::AlreadyInitialized);
        }
        upstream.add_target(net, AnyEventConsumer::new(AnyNode::new(self.node.id)));
        let display_id = net.display_id(upstream.id);
        net.set_display_id(self.node.id, display_id);
        net.set_recursive_source(self.node.id, *upstream);
        proof {
            assert(net@ =~= with_upstream(old(net)@, self.node.id as int, *upstream));
            lemma_with_upstream_well_formed(old(net)@, self.node.id as int, *upstream);
            if well_typed(old(net)@) {
                old(net).lemma_len_bounded();
                lemma_with_upstream_typed(old(net)@, self.node.id as int, *upstream);
            }
            if feed_forward(old(net)@) && (upstream.output is Behavior || upstream.id < self.node.id) {
                old(net).lemma_len_bounded();
                lemma_with_upstream_feed_forward(old(net)@, self.node.id as int, *upstream);
            }
        }
        Ok(())
    }
}

// ---------------------------------------------------------------------------
// Sample
// ---------------------------------------------------------------------------

/// Sample sends the current value of its behavior whenever its event input
/// fires.
#[derive(Clone, Copy, Debug, PartialEq, Eq, Structural)]
pub struct Sample {
    pub node: Node,
}

/// Why a sample of the two nodes cannot be wired, if it cannot. One input
/// has to be a behavior and the other has to produce events.
pub open spec fn sample_error<F, G>(nodes: Seq<NodeModel<F, G>>, source1: Node, source2: Node) -> Option<
    WiringError,
> {
    if !handle_ok(nodes, source1) || !handle_ok(nodes, source2) {
        Some(WiringError::UnknownNode)
    } else if source1.output is Event && source2.output is Event {
        Some(WiringError::NotABehavior)
    } else if source1.output is Behavior && source2.output is Behavior {
        Some(WiringError::NotAnEvent)
    } else {
        None
    }
}

/// The network after a sample of the two nodes was added to it. The values
/// that the sample sends are of the type of the behavior.
pub open spec fn sample_wired<F, G>(
    nodes: Seq<NodeModel<F, G>>,
    label: Seq<char>,
    source1: Node,
    source2: Node,
) -> Seq<NodeModel<F, G>> {
    let id = nodes.len() as int;
    let behavior = crate::frp::model::behavior_side(source1, source2);
    let added = with_node(
        nodes,
        label,
        MessageType::Event,
        nodes[behavior.id as int].value_type,
        Shape::Sample(SampleShape { source1, source2 }),
    );
    with_listener(with_listener(added, source1, id), source2, id)
}

impl Sample {
    /// Constructor.
    pub fn new_named<F: Fn(&Value) -> Value, G: Fn(&Value, &Value) -> Value>(
        net: &mut Network<F, G>,
        label: &str,
        source1: &Node,
        source2: &Node,
    ) -> (r: Result<Self, WiringError>)
        requires
            old(net).wf(),
        ensures
            final(net).wf(),
            final(net).spec_depth_limit() == old(net).spec_depth_limit(),
            feed_forward(old(net)@) ==> feed_forward(final(net)@),
            well_typed(old(net)@) ==> well_typed(final(net)@),
            match sample_error(old(net)@, *source1, *source2) {
                Some(e) => r == Err::<Self, WiringError>(e) && final(net)@ == old(net)@,
                None => r == Ok::<Self, WiringError>(
                    Sample { node: Node { id: old(net)@.len() as usize, output: MessageType::Event } },
                ) && final(net)@ == sample_wired(old(net)@, label@, *source1, *source2),
            },
    {
        if !net.knows(source1) || !net.knows(source2) {
            return Err(WiringError::UnknownNode);
        }
        let value_type = match (source1.output, source2.output) {
            (MessageType::Event, MessageType::Event) => {
                return Err(WiringError::NotABehavior);
            },
            (MessageType::Behavior, MessageType::Behavior) => {
                return Err(WiringError::NotAnEvent);
            },
            (MessageType::Behavior, MessageType::Event) => net.value_type(source1.id),
            (MessageType::Event, MessageType::Behavior) => net.value_type(source2.id),
        };
        let shape = Shape::Sample(SampleShape { source1: *source1, source2: *source2 });
        let wrapper = NodeWrapper::construct(net, label, shape, MessageType::Event, value_type);
        let ghost added = net@;
        source1.add_target(net, AnyEventConsumer::new(AnyNode::new(wrapper.id)));
        proof {
            lemma_with_listener_well_formed(added, *source1, wrapper.id as int);
            if well_typed(added) {
                net.lemma_len_bounded();
                lemma_with_listener_typed(added, *source1, wrapper.id as int);
            }
            if feed_forward(added) {
                net.lemma_len_bounded();
                lemma_with_listener_feed_forward(added, *source1, wrapper.id as int);
            }
        }
        let ghost listened = net@;
        source2.add_target(net, AnyEventConsumer::new(AnyNode::new(wrapper.id)));
        proof {
            lemma_with_listener_well_formed(listened, *source2, wrapper.id as int);
            if well_typed(listened) {
                net.lemma_len_bounded();
                lemma_with_listener_typed(listened, *source2, wrapper.id as int);
            }
            if feed_forward(listened) {
                net.lemma_len_bounded();
                lemma_with_listener_feed_forward(listened, *source2, wrapper.id as int);
            }
        }
        Ok(Sample { node: Node::new(wrapper.id, MessageType::Event) })
    }
}

// ---------------------------------------------------------------------------
// Gate
// ---------------------------------------------------------------------------

/// Gate passes an event on while its behavior is `true` and drops it
/// otherwise.
#[derive(Clone, Copy, Debug, PartialEq, Eq, Structural)]
pub struct Gate {
    pub node: Node,
}

/// Why a `Gate` cannot be wired, if it cannot. The first input has to be a
/// behavior of type `bool`, the second has to produce events.
pub open spec fn gate_error<F, G>(nodes: Seq<NodeModel<F, G>>, source1: Node, source2: Node) -> Option<
    WiringError,
> {
    if !handle_ok(nodes, source1) || !handle_ok(nodes, source2) {
        Some(WiringError::UnknownNode)
    } else if !(source1.output is Behavior) {
        Some(WiringError::NotABehavior)
    } else if !(source2.output is Event) {
        Some(WiringError::NotAnEvent)
    } else if nodes[source1.id as int].value_type != ValueType::Bool {
        Some(WiringError::ValueTypeMismatch)
    } else {
        None
    }
}

/// The network after a `Gate` was added to it. The values that the node sends
/// are of the type of its event input.
pub open spec fn gate_wired<F, G>(
    nodes: Seq<NodeModel<F, G>>,
    label: Seq<char>,
    source1: Node,
    source2: Node,
) -> Seq<NodeModel<F, G>> {
    let id = nodes.len() as int;
    let added = with_node(
        nodes,
        label,
        MessageType::Event,
        nodes[source2.id as int].value_type,
        Shape::Gate(GateShape { source1, source2 }),
    );
    with_listener(with_listener(added, source1, id), source2, id)
}

impl Gate {
    /// Constructor.
    pub fn new_named<F: Fn(&Value) -> Value, G: Fn(&Value, &Value) -> Value>(
        net: &mut Network<F, G>,
        label: &str,
        source1: &Node,
        source2: &Node,
    ) -> (r: Result<Self, WiringError>)
        requires
            old(net).wf(),
        ensures
            final(net).wf(),
            final(net).spec_depth_limit() == old(net).spec_depth_limit(),
            feed_forward(old(net)@) ==> feed_forward(final(net)@),
            well_typed(old(net)@) ==> well_typed(final(net)@),
            match gate_error(old(net)@, *source1, *source2) {
                Some(e) => r == Err::<Self, WiringError>(e) && final(net)@ == old(net)@,
                None => r == Ok::<Self, WiringError>(
                    Gate { node: Node { id: old(net)@.len() as usize, output: MessageType::Event } },
                ) && final(net)@ == gate_wired(old(net)@, label@, *source1, *source2),
            },
    {
        if !net.knows(source1) || !net.knows(source2) {
            return Err(WiringError::UnknownNode);
        }
        match source1.output {
            MessageType::Behavior => {},
            MessageType::Event => {
                return Err(WiringError::NotABehavior);
            },
        }
        match source2.output {
            MessageType::Event => {},
            MessageType::Behavior => {
                return Err(WiringError::NotAnEvent);
            },
        }
        if net.value_type(source1.id) != ValueType::Bool {
            return Err(WiringError::ValueTypeMismatch);
        }
        let value_type = net.value_type(source2.id);
        let shape = Shape::Gate(GateShape { source1: *source1, source2: *source2 });
        let wrapper = NodeWrapper::construct(net, label, shape, MessageType::Event, value_type);
        let ghost added = net@;
        source1.add_target(net, AnyEventConsumer::new(AnyNode::new(wrapper.id)));
        proof {
            lemma_with_listener_well_formed(added, *source1, wrapper.id as int);
            if well_typed(added) {
                net.lemma_len_bounded();
                lemma_with_listener_typed(added, *source1, wrapper.id as int);
            }
            if feed_forward(added) {
                net.lemma_len_bounded();
                lemma_with_listener_feed_forward(added, *source1, wrapper.id as int);
            }
        }
        let ghost listened = net@;
        source2.add_target(net, AnyEventConsumer::new(AnyNode::new(wrapper.id)));
        proof {
            lemma_with_listener_well_formed(listened, *source2, wrapper.id as int);
            if well_typed(listened) {
                net.lemma_len_bounded();
                lemma_with_listener_typed(listened, *source2, wrapper.id as int);
            }
            if feed_forward(listened) {
                net.lemma_len_bounded();
                lemma_with_listener_feed_forward(listened, *source2, wrapper.id as int);
            }
        }
        Ok(Gate { node: Node::new(wrapper.id, MessageType::Event) })
    }
}

// ---------------------------------------------------------------------------
// Lambda
// ---------------------------------------------------------------------------

/// Lambda transforms what its input sends with a function. It produces the
/// kind of message that its input produces.
#[derive(Clone, Copy, Debug, PartialEq, Eq, Structural)]
pub struct Lambda {
    pub node: Node,
}

/// The network after a lambda with the given function was added to it.
pub open spec fn lambda_wired_with<F, G>(
    nodes: Seq<NodeModel<F, G>>,
    label: Seq<char>,
    source: Node,
    value_type: ValueType,
    func: Lambda1Func<F>,
) -> Seq<NodeModel<F, G>> {
    let added = with_node(nodes, label, source.output, value_type, Shape::Lambda(LambdaShape { source, func }));
    with_listener(added, source, nodes.len() as int)
}

/// The network after a lambda with a function of the caller was added to
/// it.
pub open spec fn lambda_wired<F, G>(
    nodes: Seq<NodeModel<F, G>>,
    label: Seq<char>,
    source: Node,
    value_type: ValueType,
    func: F,
) -> Seq<NodeModel<F, G>> {
    lambda_wired_with(nodes, label, source, value_type, Lambda1Func::Custom(func))
}

impl Lambda {
    /// Wires a lambda with the given function.
    fn wire<F: Fn(&Value) -> Value, G: Fn(&Value, &Value) -> Value>(
        net: &mut Network<F, G>,
        label: &str,
        source: &Node,
        value_type: ValueType,
        func: Lambda1Func<F>,
    ) -> (r: Result<Self, WiringError>)
        requires
            old(net).wf(),
            func.spec_is_pure(),
        ensures
            final(net).wf(),
            final(net).spec_depth_limit() == old(net).spec_depth_limit(),
            feed_forward(old(net)@) ==> feed_forward(final(net)@),
            well_typed(old(net)@) && (handle_ok(old(net)@, *source) ==> func_typed(
                func,
                old(net)@[source.id as int].value_type,
                value_type,
            )) ==> well_typed(final(net)@),
            if handle_ok(old(net)@, *source) {
                r == Ok::<Self, WiringError>(
                    Lambda { node: Node { id: old(net)@.len() as usize, output: source.output } },
                ) && final(net)@ == lambda_wired_with(old(net)@, label@, *source, value_type, func)
            } else {
                r == Err::<Self, WiringError>(WiringError::UnknownNode) && final(net)@ == old(net)@
            },
    {
        if !net.knows(source) {
            return Err(WiringError::UnknownNode);
        }
        let output = crate::frp::infer::inferred(source.output);
        let shape = Shape::Lambda(LambdaShape { source: *source, func });
        let wrapper = NodeWrapper::construct(net, label, shape, output, value_type);
        let ghost added = net@;
        source.add_target(net, AnyEventConsumer::new(AnyNode::new(wrapper.id)));
        proof {
            lemma_with_listener_well_formed(added, *source, wrapper.id as int);
            if well_typed(added) {
                net.lemma_len_bounded();
                lemma_with_listener_typed(added, *source, wrapper.id as int);
            }
            if feed_forward(added) {
                net.lemma_len_bounded();
                lemma_with_listener_feed_forward(added, *source, wrapper.id as int);
            }
        }
        Ok(Lambda { node: Node::new(wrapper.id, output) })
    }

    /// Constructor. `value_type` is the type of the results of `func`.
    pub fn new_named<F: Fn(&Value) -> Value, G: Fn(&Value, &Value) -> Value>(
        net: &mut Network<F, G>,
        label: &str,
        source: &Node,
        value_type: ValueType,
        func: F,
    ) -> (r: Result<Self, WiringError>)
        requires
            old(net).wf(),
            lambda1_is_pure(func),
        ensures
            final(net).wf(),
            final(net).spec_depth_limit() == old(net).spec_depth_limit(),
            feed_forward(old(net)@) ==> feed_forward(final(net)@),
            well_typed(old(net)@) && (handle_ok(old(net)@, *source) ==> lambda1_typed(
                func,
                old(net)@[source.id as int].value_type,
                value_type,
            )) ==> well_typed(final(net)@),
            if handle_ok(old(net)@, *source) {
                r == Ok::<Self, WiringError>(
                    Lambda { node: Node { id: old(net)@.len() as usize, output: source.output } },
                ) && final(net)@ == lambda_wired(old(net)@, label@, *source, value_type, func)
            } else {
                r == Err::<Self, WiringError>(WiringError::UnknownNode) && final(net)@ == old(net)@
            },
    {
        Lambda::wire(net, label, source, value_type, Lambda1Func::new(func))
    }

    /// A lambda that sends `value` whenever its input sends anything.
    pub fn constant<F: Fn(&Value) -> Value, G: Fn(&Value, &Value) -> Value>(
        net: &mut Network<F, G>,
        label: &str,
        source: &Node,
        value: Value,
    ) -> (r: Result<Self, WiringError>)
        requires
            old(net).wf(),
        ensures
            final(net).wf(),
            final(net).spec_depth_limit() == old(net).spec_depth_limit(),
            feed_forward(old(net)@) ==> feed_forward(final(net)@),
            well_typed(old(net)@) ==> well_typed(final(net)@),
            if handle_ok(old(net)@, *source) {
                r == Ok::<Self, WiringError>(
                    Lambda { node: Node { id: old(net)@.len() as usize, output: source.output } },
                ) && final(net)@ == lambda_wired_with(
                    old(net)@,
                    label@,
                    *source,
                    value.spec_value_type(),
                    Lambda1Func::Constant(value),
                )
            } else {
                r == Err::<Self, WiringError>(WiringError::UnknownNode) && final(net)@ == old(net)@
            },
    {
        Lambda::wire(net, label, source, value.value_type(), Lambda1Func::constant(value))
    }
}

// ---------------------------------------------------------------------------
// Lambda2
// ---------------------------------------------------------------------------

/// Lambda2 transforms what its event input sends, together with the current
/// value of its other input, with a function of two arguments. It produces
/// events.
#[derive(Clone, Copy, Debug, PartialEq, Eq, Structural)]
pub struct Lambda2 {
    pub node: Node,
}

/// Why a lambda with two inputs cannot be wired, if it cannot. Two inputs
/// that both produce events are refused, since neither has a current value
/// that the function could get. Two behaviors are accepted; such a node
/// never fires.
pub open spec fn lambda2_error<F, G>(nodes: Seq<NodeModel<F, G>>, source1: Node, source2: Node) -> Option<
    WiringError,
> {
    if !handle_ok(nodes, source1) || !handle_ok(nodes, source2) {
        Some(WiringError::UnknownNode)
    } else if source1.output is Event && source2.output is Event {
        Some(WiringError::NotABehavior)
    } else {
        None
    }
}

/// The network after a lambda with two inputs was added to it.
pub open spec fn lambda2_wired<F, G>(
    nodes: Seq<NodeModel<F, G>>,
    label: Seq<char>,
    source1: Node,
    source2: Node,
    value_type: ValueType,
    func: G,
) -> Seq<NodeModel<F, G>> {
    let id = nodes.len() as int;
    let added = with_node(
        nodes,
        label,
        MessageType::Event,
        value_type,
        Shape::Lambda2(Lambda2Shape { source1, source2, func: Lambda2Func { raw: func } }),
    );
    with_listener(with_listener(added, source1, id), source2, id)
}

impl Lambda2 {
    /// Constructor. `value_type` is the type of the results of `func`.
    pub fn new_named<F: Fn(&Value) -> Value, G: Fn(&Value, &Value) -> Value>(
        net: &mut Network<F, G>,
        label: &str,
        source1: &Node,
        source2: &Node,
        value_type: ValueType,
        func: G,
    ) -> (r: Result<Self, WiringError>)
        requires
            old(net).wf(),
            lambda2_is_pure(func),
        ensures
            final(net).wf(),
            final(net).spec_depth_limit() == old(net).spec_depth_limit(),
            feed_forward(old(net)@) ==> feed_forward(final(net)@),
            well_typed(old(net)@) && (handle_ok(old(net)@, *source1) && handle_ok(old(net)@, *source2) ==> lambda2_typed(
                func,
                old(net)@[source1.id as int].value_type,
                old(net)@[source2.id as int].value_type,
                value_type,
            )) ==> well_typed(final(net)@),
            match lambda2_error(old(net)@, *source1, *source2) {
                Some(e) => r == Err::<Self, WiringError>(e) && final(net)@ == old(net)@,
                None => r == Ok::<Self, WiringError>(
                    Lambda2 { node: Node { id: old(net)@.len() as usize, output: MessageType::Event } },
                ) && final(net)@ == lambda2_wired(old(net)@, label@, *source1, *source2, value_type, func),
            },
    {
        if !net.knows(source1) || !net.knows(source2) {
            return Err(WiringError::UnknownNode);
        }
        match (source1.output, source2.output) {
            (MessageType::Event, MessageType::Event) => {
                return Err(WiringError::NotABehavior);
            },
            _ => {},
        }
        let output = crate::frp::infer::inferred2(source1.output, source2.output);
        let shape = Shape::Lambda2(
            Lambda2Shape { source1: *source1, source2: *source2, func: Lambda2Func::new(func) },
        );
        let wrapper = NodeWrapper::construct(net, label, shape, output, value_type);
        let ghost added = net@;
        source1.add_target(net, AnyEventConsumer::new(AnyNode::new(wrapper.id)));
        proof {
            lemma_with_listener_well_formed(added, *source1, wrapper.id as int);
            if well_typed(added) {
                net.lemma_len_bounded();
                lemma_with_listener_typed(added, *source1, wrapper.id as int);
            }
            if feed_forward(added) {
                net.lemma_len_bounded();
                lemma_with_listener_feed_forward(added, *source1, wrapper.id as int);
            }
        }
        let ghost listened = net@;
        source2.add_target(net, AnyEventConsumer::new(AnyNode::new(wrapper.id)));
        proof {
            lemma_with_listener_well_formed(listened, *source2, wrapper.id as int);
            if well_typed(listened) {
                net.lemma_len_bounded();
                lemma_with_listener_typed(listened, *source2, wrapper.id as int);
            }
            if feed_forward(listened) {
                net.lemma_len_bounded();
                lemma_with_listener_feed_forward(listened, *source2, wrapper.id as int);
            }
        }
        Ok(Lambda2 { node: Node::new(wrapper.id, output) })
    }
}

} // verus!
