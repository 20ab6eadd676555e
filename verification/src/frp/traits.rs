//! The capabilities that the handles to nodes share. A handle is no more
//! than the identifier of its node: what it offers is looked up in the
//! network that the node belongs to.

use vstd::prelude::*;
use crate::frp::combinators::Gate;
use crate::frp::combinators::Hold;
use crate::frp::combinators::Lambda2;
use crate::frp::combinators::Lambda;
use crate::frp::combinators::Merge;
use crate::frp::combinators::NodeWrapperTemplate;
use crate::frp::combinators::Recursive;
use crate::frp::combinators::Sample;
use crate::frp::combinators::Source;
use crate::frp::combinators::Toggle;
use crate::frp::message::EventMessage;
use crate::frp::message::MessageType;
use crate::frp::message::Value;
use crate::frp::model::current_value_of;
use crate::frp::model::deliver;
use crate::frp::model::emit_event;
use crate::frp::model::feed_forward;
use crate::frp::network::Network;
use crate::frp::network::Propagation;
use crate::frp::network::same_wiring;
use crate::frp::node::AnyEventConsumer;
use crate::frp::node::AnyNode;
use crate::frp::node::Node;
use crate::frp::node::Shape;
use crate::frp::typing::emissions_typed;
use crate::frp::typing::expected_type;
use crate::frp::typing::lemma_display_id_typed;
use crate::frp::typing::well_typed;
use crate::frp::wiring::lemma_display_id_well_formed;
use crate::frp::wiring::with_listener;

verus! {

/// Each node has an identifier that no other node of its network has.
pub trait HasId {
    /// Identifier of the entity.
    spec fn spec_id(&self) -> usize;

    /// Identifier of the entity.
    fn id(&self) -> (r: usize)
        ensures
            r == self.spec_id(),
    ;
}

/// Each node can also be given a display identifier. Unlike the identifier,
/// it does not have to be unique: nodes with the same display identifier are
/// shown as a single node in a graph. It is the identifier of the node
/// unless it was set to another value.
pub trait HasDisplayId: HasId {
    /// Getter.
    fn display_id<F: Fn(&Value) -> Value, G: Fn(&Value, &Value) -> Value>(&self, net: &Network<F, G>) -> (r: usize)
        requires
            self.spec_id() < net@.len(),
        ensures
            r == net@[self.spec_id() as int].display_id,
    {
        net.display_id(self.id())
    }

    /// Setter.
    fn set_display_id<F: Fn(&Value) -> Value, G: Fn(&Value, &Value) -> Value>(&self, net: &mut Network<F, G>, id: usize)
        requires
            self.spec_id() < old(net)@.len(),
        ensures
            final(net)@ == old(net)@.update(
                self.spec_id() as int,
                old(net)@[self.spec_id() as int].with_display_id(id),
            ),
            final(net).spec_depth_limit() == old(net).spec_depth_limit(),
            old(net).wf() ==> final(net).wf(),
            old(net).wf() && well_typed(old(net)@) ==> well_typed(final(net)@),
    {
        net.set_display_id(self.id(), id);
        proof {
            if old(net).wf() {
                lemma_display_id_well_formed(old(net)@, self.spec_id() as int, id);
                if well_typed(old(net)@) {
                    lemma_display_id_typed(old(net)@, self.spec_id() as int, id);
                }
            }
        }
    }
}

/// Abstraction for labeled entities. Used mainly for debugging purposes.
pub trait HasLabel: HasId {
    /// Label of the entity.
    fn label<F: Fn(&Value) -> Value, G: Fn(&Value, &Value) -> Value>(&self, net: &Network<F, G>) -> (r: String)
        requires
            self.spec_id() < net@.len(),
        ensures
            r@ == net@[self.spec_id() as int].label,
    {
        net.label(self.id())
    }
}

/// Each node tells which nodes it reads from.
pub trait HasInputs: HasId {
    /// The nodes that the node reads from, in the order of the fields of
    /// its shape. A recursive node has to be initialized before it is asked.
    fn inputs<F: Fn(&Value) -> Value, G: Fn(&Value, &Value) -> Value>(&self, net: &Network<F, G>) -> (r: Vec<AnyNode>)
        requires
            self.spec_id() < net@.len(),
            net@[self.spec_id() as int].shape matches Shape::Recursive(s) ==> s.source is Some,
        ensures
            r@.len() == net@[self.spec_id() as int].shape.spec_inputs().len(),
            forall|k: int|
                0 <= k < r@.len() ==> (#[trigger] r@[k]).id == net@[self.spec_id() as int].shape.spec_inputs()[k].id,
    {
        net.inputs(self.id())
    }
}

/// Each node tells the kind and the type of what it produces.
pub trait KnownOutputType: HasId {
    /// The kind of message that the node produces.
    fn output_type<F: Fn(&Value) -> Value, G: Fn(&Value, &Value) -> Value>(&self, net: &Network<F, G>) -> (r: MessageType)
        requires
            self.spec_id() < net@.len(),
        ensures
            r == net@[self.spec_id() as int].output,
    {
        net.output_type(self.id())
    }

    /// The name of the type of the values that the node produces.
    fn output_type_value_name<F: Fn(&Value) -> Value, G: Fn(&Value, &Value) -> Value>(&self, net: &Network<F, G>) -> (r: String)
        requires
            self.spec_id() < net@.len(),
        ensures
            r@ == net@[self.spec_id() as int].value_type.spec_name(),
    {
        net.value_type(self.id()).name()
    }
}

/// What every handle to a node offers.
pub trait AnyNodeOps: HasId + HasDisplayId + KnownOutputType {

}

/// A node that stores the consumers that it notifies.
pub trait HasEventTargets: HasId {
    /// Registers a consumer as the last target of the node.
    fn add_event_target<F: Fn(&Value) -> Value, G: Fn(&Value, &Value) -> Value>(&self, net: &mut Network<F, G>, target: AnyEventConsumer)
        requires
            self.spec_id() < old(net)@.len(),
        ensures
            final(net)@ == old(net)@.update(
                self.spec_id() as int,
                old(net)@[self.spec_id() as int].with_target(target),
            ),
            final(net).spec_depth_limit() == old(net).spec_depth_limit(),
    {
        net.add_event_target(self.id(), target);
    }
}

/// A node whose current value can be asked for.
pub trait HasCurrentValue: HasId {
    /// The current value of the node. A node of the network has one if it is
    /// a source of behavior kind, a hold, or a recursive node of behavior
    /// kind whose chain of upstream nodes ends in one of these.
    fn current_value<F: Fn(&Value) -> Value, G: Fn(&Value, &Value) -> Value>(&self, net: &Network<F, G>) -> (r: Option<Value>)
        ensures
            r == current_value_of(net@, self.spec_id() as int),
    {
        net.current_value(self.id())
    }
}

/// Abstraction for nodes which are able to consume events.
pub trait EventConsumer: HasId {
    /// Function called on every new received event.
    fn on_event<F: Fn(&Value) -> Value, G: Fn(&Value, &Value) -> Value>(&self, net: &mut Network<F, G>, input: &EventMessage<Value>) -> (r: Propagation)
        requires
            old(net).wf(),
            self.spec_id() < old(net)@.len(),
        ensures
            final(net).wf(),
            same_wiring(old(net)@, final(net)@),
            final(net).spec_depth_limit() == old(net).spec_depth_limit(),
            final(net)@ == deliver(
                old(net)@,
                self.spec_id() as int,
                input.0,
                old(net).spec_depth_limit() as nat,
            ).nodes,
            r.emissions@ == deliver(
                old(net)@,
                self.spec_id() as int,
                input.0,
                old(net).spec_depth_limit() as nat,
            ).emissions,
            r.status == deliver(
                old(net)@,
                self.spec_id() as int,
                input.0,
                old(net).spec_depth_limit() as nat,
            ).status,
            well_typed(old(net)@) && (expected_type(old(net)@, self.spec_id() as int) matches Some(ty)
                ==> input.0.spec_value_type() == ty) ==> well_typed(final(net)@) && emissions_typed(
                old(net)@,
                r.emissions@,
            ),
    {
        net.notify(self.id(), input.0)
    }
}

/// Abstraction for nodes which are able to emit events.
pub trait EventEmitter: HasId {
    /// Sends the event to every target of the node, in the order in which
    /// the targets were registered.
    fn emit<F: Fn(&Value) -> Value, G: Fn(&Value, &Value) -> Value>(&self, net: &mut Network<F, G>, event: &EventMessage<Value>) -> (r: Propagation)
        requires
            old(net).wf(),
            self.spec_id() < old(net)@.len(),
        ensures
            final(net).wf(),
            same_wiring(old(net)@, final(net)@),
            final(net).spec_depth_limit() == old(net).spec_depth_limit(),
            final(net)@ == emit_event(
                old(net)@,
                self.spec_id() as int,
                event.0,
                old(net).spec_depth_limit() as nat,
            ).nodes,
            r.emissions@ == emit_event(
                old(net)@,
                self.spec_id() as int,
                event.0,
                old(net).spec_depth_limit() as nat,
            ).emissions,
            r.status == emit_event(
                old(net)@,
                self.spec_id() as int,
                event.0,
                old(net).spec_depth_limit() as nat,
            ).status,
            feed_forward(old(net)@) && old(net).spec_depth_limit() + self.spec_id() + 1 >= old(net)@.len() ==> !(
            r.status is DepthExceeded),
            well_typed(old(net)@) && event.0.spec_value_type() == old(net)@[self.spec_id() as int].value_type
                ==> well_typed(final(net)@) && emissions_typed(old(net)@, r.emissions@),
    {
        net.propagate(self.id(), event.0)
    }
}

/// Abstraction for adding a target to a given node. Nodes which carry
/// behaviors do not need to perform any operation here, while event streams
/// register the nodes they send notifications to.
pub trait AddTarget {
    /// The node that the target is added to.
    spec fn spec_node(&self) -> Node;

    /// Adds a node as a target of the current flow.
    fn add_target<F: Fn(&Value) -> Value, G: Fn(&Value, &Value) -> Value>(&self, net: &mut Network<F, G>, listener: AnyEventConsumer)
        requires
            (self.spec_node().id as int) < old(net)@.len(),
        ensures
            final(net)@ == with_listener(old(net)@, self.spec_node(), listener.raw as int),
            final(net).spec_depth_limit() == old(net).spec_depth_limit(),
    ;
}

impl AddTarget for Node {
    open spec fn spec_node(&self) -> Node {
        *self
    }

    fn add_target<F: Fn(&Value) -> Value, G: Fn(&Value, &Value) -> Value>(&self, net: &mut Network<F, G>, listener: AnyEventConsumer) {
        match self.output {
            MessageType::Event => {
                net.add_event_target(self.id, listener);
            },
            MessageType::Behavior => {},
        }
    }
}

// --- NodeWrapperTemplate ---

impl HasId for NodeWrapperTemplate {
    open spec fn spec_id(&self) -> usize {
        self.id
    }

    fn id(&self) -> (r: usize) {
        self.id
    }
}

impl HasDisplayId for NodeWrapperTemplate {

}

impl HasLabel for NodeWrapperTemplate {

}

impl HasInputs for NodeWrapperTemplate {

}

impl KnownOutputType for NodeWrapperTemplate {

}

impl AnyNodeOps for NodeWrapperTemplate {

}

impl HasEventTargets for NodeWrapperTemplate {

}

impl EventEmitter for NodeWrapperTemplate {

}

// --- Node ---

impl HasId for Node {
    open spec fn spec_id(&self) -> usize {
        self.id
    }

    fn id(&self) -> (r: usize) {
        self.id
    }
}

impl HasDisplayId for Node {

}

impl HasLabel for Node {

}

impl HasInputs for Node {

}

impl KnownOutputType for Node {

}

impl AnyNodeOps for Node {

}

impl HasEventTargets for Node {

}

impl HasCurrentValue for Node {

}

// --- AnyNode ---

impl HasId for AnyNode {
    open spec fn spec_id(&self) -> usize {
        self.id
    }

    fn id(&self) -> (r: usize) {
        self.id
    }
}

impl HasDisplayId for AnyNode {

}

impl HasLabel for AnyNode {

}

impl HasInputs for AnyNode {

}

impl KnownOutputType for AnyNode {

}

impl AnyNodeOps for AnyNode {

}

// --- Source ---

impl HasId for Source {
    open spec fn spec_id(&self) -> usize {
        self.node.id
    }

    fn id(&self) -> (r: usize) {
        self.node.id
    }
}

impl HasDisplayId for Source {

}

impl HasLabel for Source {

}

impl HasInputs for Source {

}

impl KnownOutputType for Source {

}

impl AnyNodeOps for Source {

}

impl EventEmitter for Source {

}

impl HasCurrentValue for Source {

}

// --- Merge ---

impl HasId for Merge {
    open spec fn spec_id(&self) -> usize {
        self.node.id
    }

    fn id(&self) -> (r: usize) {
        self.node.id
    }
}

impl HasDisplayId for Merge {

}

impl HasLabel for Merge {

}

impl HasInputs for Merge {

}

impl KnownOutputType for Merge {

}

impl AnyNodeOps for Merge {

}

impl EventEmitter for Merge {

}

impl EventConsumer for Merge {

}

// --- Toggle ---

impl HasId for Toggle {
    open spec fn spec_id(&self) -> usize {
        self.node.id
    }

    fn id(&self) -> (r: usize) {
        self.node.id
    }
}

impl HasDisplayId for Toggle {

}

impl HasLabel for Toggle {

}

impl HasInputs for Toggle {

}

impl KnownOutputType for Toggle {

}

impl AnyNodeOps for Toggle {

}

impl EventEmitter for Toggle {

}

impl EventConsumer for Toggle {

}

// --- Hold ---

impl HasId for Hold {
    open spec fn spec_id(&self) -> usize {
        self.node.id
    }

    fn id(&self) -> (r: usize) {
        self.node.id
    }
}

impl HasDisplayId for Hold {

}

impl HasLabel for Hold {

}

impl HasInputs for Hold {

}

impl KnownOutputType for Hold {

}

impl AnyNodeOps for Hold {

}

impl EventConsumer for Hold {

}

impl HasCurrentValue for Hold {

}

// --- Recursive ---

impl HasId for Recursive {
    open spec fn spec_id(&self) -> usize {
        self.node.id
    }

    fn id(&self) -> (r: usize) {
        self.node.id
    }
}

impl HasDisplayId for Recursive {

}

impl HasLabel for Recursive {

}

impl HasInputs for Recursive {

}

impl KnownOutputType for Recursive {

}

impl AnyNodeOps for Recursive {

}

impl EventEmitter for Recursive {

}

impl EventConsumer for Recursive {

}

impl HasCurrentValue for Recursive {

}

// --- Sample ---

impl HasId for Sample {
    open spec fn spec_id(&self) -> usize {
        self.node.id
    }

    fn id(&self) -> (r: usize) {
        self.node.id
    }
}

impl HasDisplayId for Sample {

}

impl HasLabel for Sample {

}

impl HasInputs for Sample {

}

impl KnownOutputType for Sample {

}

impl AnyNodeOps for Sample {

}

impl EventEmitter for Sample {

}

impl EventConsumer for Sample {

}

// --- Gate ---

impl HasId for Gate {
    open spec fn spec_id(&self) -> usize {
        self.node.id
    }

    fn id(&self) -> (r: usize) {
        self.node.id
    }
}

impl HasDisplayId for Gate {

}

impl HasLabel for Gate {

}

impl HasInputs for Gate {

}

impl KnownOutputType for Gate {

}

impl AnyNodeOps for Gate {

}

impl EventEmitter for Gate {

}

impl EventConsumer for Gate {

}

// --- Lambda ---

impl HasId for Lambda {
    open spec fn spec_id(&self) -> usize {
        self.node.id
    }

    fn id(&self) -> (r: usize) {
        self.node.id
    }
}

impl HasDisplayId for Lambda {

}

impl HasLabel for Lambda {

}

impl HasInputs for Lambda {

}

impl KnownOutputType for Lambda {

}

impl AnyNodeOps for Lambda {

}

impl EventEmitter for Lambda {

}

impl EventConsumer for Lambda {

}

// --- Lambda2 ---

impl HasId for Lambda2 {
    open spec fn spec_id(&self) -> usize {
        self.node.id
    }

    fn id(&self) -> (r: usize) {
        self.node.id
    }
}

impl HasDisplayId for Lambda2 {

}

impl HasLabel for Lambda2 {

}

impl HasInputs for Lambda2 {

}

impl KnownOutputType for Lambda2 {

}

impl AnyNodeOps for Lambda2 {

}

impl EventEmitter for Lambda2 {

}

impl EventConsumer for Lambda2 {

}

} // verus!
