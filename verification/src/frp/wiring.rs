//! What wiring a new node into a network does to the model of the network,
//! and why the network stays well formed under it.

use vstd::prelude::*;
use crate::frp::message::MessageType;
use crate::frp::message::Value;
use crate::frp::message::ValueType;
use crate::frp::model::feed_forward;
use crate::frp::model::handle_ok;
use crate::frp::model::node_ok;
use crate::frp::model::shape_ok;
use crate::frp::model::well_formed;
use crate::frp::node::AnyEventConsumer;
use crate::frp::node::Node;
use crate::frp::node::NodeModel;
use crate::frp::node::RecursiveShape2;
use crate::frp::node::Shape;

verus! {

/// Why a node could not be wired.
#[derive(Clone, Copy, Debug, PartialEq, Eq, Structural)]
pub enum WiringError {
    /// A handle names no node of the network, or a node of another kind
    /// than the handle claims.
    UnknownNode,
    /// An input that has to produce events is a behavior.
    NotAnEvent,
    /// An input that has to be a behavior produces events.
    NotABehavior,
    /// The types of the values of the inputs do not fit.
    ValueTypeMismatch,
    /// A recursive node and its upstream node produce different kinds of
    /// message.
    KindMismatch,
    /// The recursive node was initialized before.
    AlreadyInitialized,
}

/// The record of a node that was just added: it is shown under its own
/// identifier and has no targets.
pub open spec fn fresh_record<F, G>(
    nodes: Seq<NodeModel<F, G>>,
    label: Seq<char>,
    output: MessageType,
    value_type: ValueType,
    shape: Shape<F, G>,
) -> NodeModel<F, G> {
    NodeModel {
        label,
        display_id: nodes.len() as usize,
        output,
        value_type,
        shape,
        targets: Seq::empty(),
    }
}

/// The network with one more node at its end.
pub open spec fn with_node<F, G>(
    nodes: Seq<NodeModel<F, G>>,
    label: Seq<char>,
    output: MessageType,
    value_type: ValueType,
    shape: Shape<F, G>,
) -> Seq<NodeModel<F, G>> {
    nodes.push(fresh_record(nodes, label, output, value_type, shape))
}

/// The network after `listener` was registered with `source`. A node that
/// produces events gets one more target; with a behavior nothing is
/// registered, since a behavior is read and never notifies.
pub open spec fn with_listener<F, G>(nodes: Seq<NodeModel<F, G>>, source: Node, listener: int) -> Seq<
    NodeModel<F, G>,
> {
    if source.output is Event && (source.id as int) < nodes.len() {
        nodes.update(
            source.id as int,
            nodes[source.id as int].with_target(AnyEventConsumer { raw: listener as usize }),
        )
    } else {
        nodes
    }
}

/// The network after the recursive node `id` got its upstream node: the
/// node is a target of the upstream node, is shown under the identifier of
/// the upstream node, and remembers it.
pub open spec fn with_upstream<F, G>(nodes: Seq<NodeModel<F, G>>, id: int, upstream: Node) -> Seq<
    NodeModel<F, G>,
> {
    let listened = with_listener(nodes, upstream, id);
    listened.update(
        id,
        listened[id].with_display_id(listened[upstream.id as int].display_id).with_shape(
            Shape::Recursive(RecursiveShape2 { source: Some(upstream) }),
        ),
    )
}

/// A shape that fits a network fits every network that has the same nodes
/// and more.
pub proof fn lemma_shape_ok_extends<F: Fn(&Value) -> Value, G: Fn(&Value, &Value) -> Value>(
    before: Seq<NodeModel<F, G>>,
    after: Seq<NodeModel<F, G>>,
    shape: Shape<F, G>,
    output: MessageType,
)
    requires
        shape_ok(before, shape, output),
        before.len() <= after.len(),
        forall|i: int| 0 <= i < before.len() ==> (#[trigger] after[i]).output == before[i].output,
    ensures
        shape_ok(after, shape, output),
{
}

/// Adding a node whose shape fits keeps the network well formed.
pub proof fn lemma_with_node_well_formed<F: Fn(&Value) -> Value, G: Fn(&Value, &Value) -> Value>(
    nodes: Seq<NodeModel<F, G>>,
    label: Seq<char>,
    output: MessageType,
    value_type: ValueType,
    shape: Shape<F, G>,
)
    requires
        well_formed(nodes),
        shape_ok(nodes, shape, output),
    ensures
        well_formed(with_node(nodes, label, output, value_type, shape)),
{
    let after = with_node(nodes, label, output, value_type, shape);
    assert forall|i: int| 0 <= i < after.len() implies #[trigger] node_ok(after, i) by {
        if i < nodes.len() {
            assert(node_ok(nodes, i));
            assert(after[i] == nodes[i]);
            lemma_shape_ok_extends(nodes, after, nodes[i].shape, nodes[i].output);
        } else {
            lemma_shape_ok_extends(nodes, after, shape, output);
        }
    }
}

/// Registering a node of the network as a listener keeps the network well
/// formed.
pub proof fn lemma_with_listener_well_formed<F: Fn(&Value) -> Value, G: Fn(&Value, &Value) -> Value>(
    nodes: Seq<NodeModel<F, G>>,
    source: Node,
    listener: int,
)
    requires
        well_formed(nodes),
        handle_ok(nodes, source),
        0 <= listener < nodes.len(),
    ensures
        well_formed(with_listener(nodes, source, listener)),
        with_listener(nodes, source, listener).len() == nodes.len(),
        forall|i: int|
            0 <= i < nodes.len() ==> {
                &&& (#[trigger] with_listener(nodes, source, listener)[i]).output == nodes[i].output
                &&& with_listener(nodes, source, listener)[i].shape == nodes[i].shape
                &&& with_listener(nodes, source, listener)[i].value_type == nodes[i].value_type
                &&& with_listener(nodes, source, listener)[i].display_id == nodes[i].display_id
            },
{
    let after = with_listener(nodes, source, listener);
    assert forall|i: int| 0 <= i < after.len() implies #[trigger] node_ok(after, i) by {
        assert(node_ok(nodes, i));
        lemma_shape_ok_extends(nodes, after, nodes[i].shape, nodes[i].output);
        if source.output is Event && i == source.id {
            assert forall|k: int| 0 <= k < after[i].targets.len() implies (#[trigger] after[i].targets[k]).raw
                < after.len() by {
                if k < nodes[i].targets.len() {
                    assert(after[i].targets[k] == nodes[i].targets[k]);
                }
            }
        } else {
            assert(after[i] == nodes[i]);
        }
    }
}

/// Giving an empty recursive node an upstream node of its own kind keeps the
/// network well formed.
pub proof fn lemma_with_upstream_well_formed<F: Fn(&Value) -> Value, G: Fn(&Value, &Value) -> Value>(
    nodes: Seq<NodeModel<F, G>>,
    id: int,
    upstream: Node,
)
    requires
        well_formed(nodes),
        0 <= id < nodes.len(),
        nodes[id].shape is Recursive,
        handle_ok(nodes, upstream),
        upstream.output == nodes[id].output,
    ensures
        well_formed(with_upstream(nodes, id, upstream)),
{
    let listened = with_listener(nodes, upstream, id);
    lemma_with_listener_well_formed(nodes, upstream, id);
    let after = with_upstream(nodes, id, upstream);
    assert forall|i: int| 0 <= i < after.len() implies #[trigger] node_ok(after, i) by {
        assert(node_ok(listened, i));
        if i == id {
            assert(after[i].targets == listened[i].targets);
        } else {
            assert(after[i] == listened[i]);
            lemma_shape_ok_extends(listened, after, listened[i].shape, listened[i].output);
        }
    }
}

/// Changing the identifier under which a node is shown keeps the network
/// well formed.
pub proof fn lemma_display_id_well_formed<F: Fn(&Value) -> Value, G: Fn(&Value, &Value) -> Value>(
    nodes: Seq<NodeModel<F, G>>,
    id: int,
    display_id: usize,
)
    requires
        well_formed(nodes),
        0 <= id < nodes.len(),
    ensures
        well_formed(nodes.update(id, nodes[id].with_display_id(display_id))),
{
    let after = nodes.update(id, nodes[id].with_display_id(display_id));
    assert forall|i: int| 0 <= i < after.len() implies #[trigger] node_ok(after, i) by {
        assert(node_ok(nodes, i));
        lemma_shape_ok_extends(nodes, after, nodes[i].shape, nodes[i].output);
    }
}

/// Adding a node keeps a network without feedback, since a new node has no
/// targets.
pub proof fn lemma_with_node_feed_forward<F, G>(
    nodes: Seq<NodeModel<F, G>>,
    label: Seq<char>,
    output: MessageType,
    value_type: ValueType,
    shape: Shape<F, G>,
)
    requires
        feed_forward(nodes),
    ensures
        feed_forward(with_node(nodes, label, output, value_type, shape)),
{
    let after = with_node(nodes, label, output, value_type, shape);
    assert forall|i: int, k: int| 0 <= i < after.len() && 0 <= k < after[i].targets.len() implies i < (
    #[trigger] after[i].targets[k]).raw < after.len() by {
        assert(after[i] == nodes[i]);
        assert(i < nodes[i].targets[k].raw < nodes.len());
    }
}

/// Registering a node as a listener of a node that was made before it keeps
/// a network without feedback.
pub proof fn lemma_with_listener_feed_forward<F, G>(nodes: Seq<NodeModel<F, G>>, source: Node, listener: int)
    requires
        feed_forward(nodes),
        (source.id as int) < listener < nodes.len(),
        nodes.len() <= usize::MAX,
    ensures
        feed_forward(with_listener(nodes, source, listener)),
{
    let after = with_listener(nodes, source, listener);
    assert forall|i: int, k: int| 0 <= i < after.len() && 0 <= k < after[i].targets.len() implies i < (
    #[trigger] after[i].targets[k]).raw < after.len() by {
        if source.output is Event && i == source.id && k == nodes[i].targets.len() {
        } else {
            assert(after[i].targets[k] == nodes[i].targets[k]);
            assert(i < nodes[i].targets[k].raw < nodes.len());
        }
    }
}

/// Giving a recursive node an upstream node that is a behavior, or that was
/// made before it, keeps a network without feedback.
pub proof fn lemma_with_upstream_feed_forward<F, G>(nodes: Seq<NodeModel<F, G>>, id: int, upstream: Node)
    requires
        feed_forward(nodes),
        0 <= id < nodes.len(),
        (upstream.id as int) < nodes.len(),
        nodes.len() <= usize::MAX,
        upstream.output is Behavior || upstream.id < id,
    ensures
        feed_forward(with_upstream(nodes, id, upstream)),
{
    let listened = with_listener(nodes, upstream, id);
    if upstream.output is Event {
        lemma_with_listener_feed_forward(nodes, upstream, id);
    }
    let after = with_upstream(nodes, id, upstream);
    assert forall|i: int, k: int| 0 <= i < after.len() && 0 <= k < after[i].targets.len() implies i < (
    #[trigger] after[i].targets[k]).raw < after.len() by {
        assert(after[i].targets == listened[i].targets);
        assert(i < listened[i].targets[k].raw < listened.len());
    }
}

/// Changing the identifier under which a node is shown keeps a network
/// without feedback.
pub proof fn lemma_display_id_feed_forward<F, G>(nodes: Seq<NodeModel<F, G>>, id: int, display_id: usize)
    requires
        feed_forward(nodes),
        0 <= id < nodes.len(),
    ensures
        feed_forward(nodes.update(id, nodes[id].with_display_id(display_id))),
{
    let after = nodes.update(id, nodes[id].with_display_id(display_id));
    assert forall|i: int, k: int| 0 <= i < after.len() && 0 <= k < after[i].targets.len() implies i < (
    #[trigger] after[i].targets[k]).raw < after.len() by {
        assert(after[i].targets == nodes[i].targets);
        assert(i < nodes[i].targets[k].raw < nodes.len());
    }
}

} // verus!
