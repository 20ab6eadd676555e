//! The mathematical model of a network and of the propagation of one event
//! through it. A network is a sequence of node records; the identifier of a
//! node is its position in the sequence.

use vstd::prelude::*;
use crate::frp::message::MessageType;
use crate::frp::message::Value;
use crate::frp::node::AnyEventConsumer;
use crate::frp::node::HoldShape;
use crate::frp::node::lambda2_is_pure;
use crate::frp::node::lambda2_result;
use crate::frp::node::Node;
use crate::frp::node::NodeModel;
use crate::frp::node::Shape;
use crate::frp::node::ToggleShape;

verus! {

/// One notification that a node sent to its targets.
#[derive(Clone, Copy, Debug, PartialEq, Eq, Structural)]
pub struct Emission {
    pub node: usize,
    pub value: Value,
}

/// How the propagation of an event ended.
#[derive(Clone, Copy, Debug, PartialEq, Eq, Structural)]
pub enum Status {
    /// Every node that was reached has reacted.
    Settled,
    /// A chain of nested notifications went deeper than the network allows.
    /// The propagation stopped there.
    DepthExceeded,
    /// A node had to read a behavior that has no current value: a recursive
    /// node that was not initialized, or a node that is no behavior. The
    /// propagation stopped there.
    NoCurrentValue,
}

/// The state of a network after a propagation, the notifications that were
/// sent during it, in the order in which they were sent, and how it ended.
pub struct Outcome<F, G> {
    pub nodes: Seq<NodeModel<F, G>>,
    pub emissions: Seq<Emission>,
    pub status: Status,
}

/// The handle names a node of the network, and the kind of the node is the
/// kind that the handle claims.
pub open spec fn handle_ok<F, G>(nodes: Seq<NodeModel<F, G>>, h: Node) -> bool {
    &&& (h.id as int) < nodes.len()
    &&& nodes[h.id as int].output == h.output
}

/// The shape reads from nodes of the network, of the kinds that the shape
/// asks for, and produces the kind of message `output`.
pub open spec fn shape_ok<F: Fn(&Value) -> Value, G: Fn(&Value, &Value) -> Value>(
    nodes: Seq<NodeModel<F, G>>,
    shape: Shape<F, G>,
    output: MessageType,
) -> bool {
    match shape {
        Shape::Source(_) => true,
        Shape::Merge(s) => {
            &&& handle_ok(nodes, s.source1)
            &&& handle_ok(nodes, s.source2)
            &&& s.source1.output is Event
            &&& s.source2.output is Event
            &&& output is Event
        },
        Shape::Toggle(s) => {
            &&& handle_ok(nodes, s.source)
            &&& s.source.output is Event
            &&& output is Event
        },
        Shape::Hold(s) => {
            &&& handle_ok(nodes, s.source)
            &&& s.source.output is Event
            &&& output is Behavior
        },
        Shape::Recursive(s) => match s.source {
            Some(n) => handle_ok(nodes, n) && n.output == output,
            None => true,
        },
        Shape::Sample(s) => {
            &&& handle_ok(nodes, s.source1)
            &&& handle_ok(nodes, s.source2)
            &&& s.source1.output != s.source2.output
            &&& output is Event
        },
        Shape::Gate(s) => {
            &&& handle_ok(nodes, s.source1)
            &&& handle_ok(nodes, s.source2)
            &&& s.source1.output is Behavior
            &&& s.source2.output is Event
            &&& output is Event
        },
        Shape::Lambda(s) => {
            &&& handle_ok(nodes, s.source)
            &&& s.source.output == output
            &&& s.func.spec_is_pure()
        },
        Shape::Lambda2(s) => {
            &&& handle_ok(nodes, s.source1)
            &&& handle_ok(nodes, s.source2)
            &&& !(s.source1.output is Event && s.source2.output is Event)
            &&& output is Event
            &&& lambda2_is_pure(s.func.raw)
        },
    }
}

/// The record at position `i` is consistent with the rest of the network:
/// its targets are nodes of the network, only a node that produces events has
/// targets, and its shape fits.
pub open spec fn node_ok<F: Fn(&Value) -> Value, G: Fn(&Value, &Value) -> Value>(
    nodes: Seq<NodeModel<F, G>>,
    i: int,
) -> bool {
    &&& forall|k: int|
        0 <= k < nodes[i].targets.len() ==> (#[trigger] nodes[i].targets[k]).raw < nodes.len()
    &&& nodes[i].output is Behavior ==> nodes[i].targets.len() == 0
    &&& shape_ok(nodes, nodes[i].shape, nodes[i].output)
}

/// Every record of the network is consistent with the rest of it.
pub open spec fn well_formed<F: Fn(&Value) -> Value, G: Fn(&Value, &Value) -> Value>(
    nodes: Seq<NodeModel<F, G>>,
) -> bool {
    forall|i: int| 0 <= i < nodes.len() ==> #[trigger] node_ok(nodes, i)
}

/// Every recursive node of the network has its upstream node.
pub open spec fn fully_wired<F, G>(nodes: Seq<NodeModel<F, G>>) -> bool {
    forall|i: int|
        0 <= i < nodes.len() ==> ((#[trigger] nodes[i]).shape matches Shape::Recursive(s)
            ==> s.source is Some)
}

/// Every node notifies only nodes that were made after it. A network is of
/// this kind as long as no recursive node that produces events was
/// initialized with a node that was made after it.
pub open spec fn feed_forward<F, G>(nodes: Seq<NodeModel<F, G>>) -> bool {
    forall|i: int, k: int|
        0 <= i < nodes.len() && 0 <= k < nodes[i].targets.len() ==> i < (#[trigger] nodes[i].targets[k]).raw
            < nodes.len()
}

/// The current value of the node `id`, where at most `fuel` recursive nodes
/// are passed on the way to the node that stores it. Only a source of
/// behavior kind, a hold and an initialized recursive node of behavior kind
/// have one.
pub open spec fn current_value_within<F, G>(nodes: Seq<NodeModel<F, G>>, id: int, fuel: nat) -> Option<
    Value,
>
    decreases fuel,
{
    if id < 0 || id >= nodes.len() {
        None
    } else if !(nodes[id].output is Behavior) {
        None
    } else {
        match nodes[id].shape {
            Shape::Source(s) => Some(s.storage),
            Shape::Hold(s) => Some(s.last_val),
            Shape::Recursive(s) => match s.source {
                Some(n) => if fuel > 0 {
                    current_value_within(nodes, n.id as int, (fuel - 1) as nat)
                } else {
                    None
                },
                None => None,
            },
            _ => None,
        }
    }
}

/// The current value of the node `id`. A chain of recursive nodes that
/// does not end within as many steps as the network has nodes goes in a
/// circle, and has no value.
pub open spec fn current_value_of<F, G>(nodes: Seq<NodeModel<F, G>>, id: int) -> Option<Value> {
    current_value_within(nodes, id, nodes.len())
}

/// The outcome of a propagation that changed nothing and sent nothing.
pub open spec fn nothing_sent<F, G>(nodes: Seq<NodeModel<F, G>>, status: Status) -> Outcome<F, G> {
    Outcome { nodes, emissions: Seq::empty(), status }
}

/// The input of a sample node or of a lambda with two inputs from which the
/// current value is read: the first input if it is a behavior, else the second.
pub open spec fn behavior_side(source1: Node, source2: Node) -> Node {
    if source1.output is Behavior {
        source1
    } else {
        source2
    }
}

/// The node `t` receives the value `v` from the node it listens to. Nested
/// notifications may go `fuel` levels deep.
pub open spec fn deliver<F: Fn(&Value) -> Value, G: Fn(&Value, &Value) -> Value>(
    nodes: Seq<NodeModel<F, G>>,
    t: int,
    v: Value,
    fuel: nat,
) -> Outcome<F, G>
    decreases fuel, 2nat, 0nat,
{
    if t < 0 || t >= nodes.len() {
        nothing_sent(nodes, Status::Settled)
    } else {
        match nodes[t].shape {
            Shape::Source(_) => nothing_sent(nodes, Status::Settled),
            Shape::Merge(_) => emit_event(nodes, t, v, fuel),
            Shape::Toggle(s) => {
                let flipped = Shape::Toggle(ToggleShape { source: s.source, status: !s.status });
                emit_event(nodes.update(t, nodes[t].with_shape(flipped)), t, Value::Bool(!s.status), fuel)
            },
            Shape::Hold(s) => {
                let stored = Shape::Hold(HoldShape { source: s.source, last_val: v });
                nothing_sent(nodes.update(t, nodes[t].with_shape(stored)), Status::Settled)
            },
            Shape::Recursive(_) => emit_event(nodes, t, v, fuel),
            Shape::Sample(s) => match current_value_of(nodes, behavior_side(s.source1, s.source2).id as int) {
                Some(x) => emit_event(nodes, t, x, fuel),
                None => nothing_sent(nodes, Status::NoCurrentValue),
            },
            Shape::Gate(s) => match current_value_of(nodes, s.source1.id as int) {
                Some(x) => if x == Value::Bool(true) {
                    emit_event(nodes, t, v, fuel)
                } else {
                    nothing_sent(nodes, Status::Settled)
                },
                None => nothing_sent(nodes, Status::NoCurrentValue),
            },
            Shape::Lambda(s) => emit_event(nodes, t, s.func.spec_apply(v), fuel),
            Shape::Lambda2(s) => match current_value_of(nodes, behavior_side(s.source1, s.source2).id as int) {
                Some(x) => if s.source1.output is Behavior {
                    emit_event(nodes, t, lambda2_result(s.func.raw, x, v), fuel)
                } else {
                    emit_event(nodes, t, lambda2_result(s.func.raw, v, x), fuel)
                },
                None => nothing_sent(nodes, Status::NoCurrentValue),
            },
        }
    }
}

/// The node `n` sends the value `v`: the notification is recorded, then each
/// of the targets of `n` receives `v`, in the order of registration.
pub open spec fn emit_event<F: Fn(&Value) -> Value, G: Fn(&Value, &Value) -> Value>(
    nodes: Seq<NodeModel<F, G>>,
    n: int,
    v: Value,
    fuel: nat,
) -> Outcome<F, G>
    decreases fuel, 1nat, 0nat,
{
    if n < 0 || n >= nodes.len() {
        nothing_sent(nodes, Status::Settled)
    } else {
        let rest = dispatch(nodes, nodes[n].targets, v, 0, fuel);
        Outcome {
            nodes: rest.nodes,
            emissions: seq![Emission { node: n as usize, value: v }] + rest.emissions,
            status: rest.status,
        }
    }
}

/// The targets from position `from` on receive the value `v`, one after the
/// other. The propagation stops at the first target after which it has not
/// settled.
pub open spec fn dispatch<F: Fn(&Value) -> Value, G: Fn(&Value, &Value) -> Value>(
    nodes: Seq<NodeModel<F, G>>,
    targets: Seq<AnyEventConsumer>,
    v: Value,
    from: int,
    fuel: nat,
) -> Outcome<F, G>
    decreases fuel, 0nat, targets.len() - from,
{
    if from < 0 || from >= targets.len() {
        nothing_sent(nodes, Status::Settled)
    } else if fuel == 0 {
        nothing_sent(nodes, Status::DepthExceeded)
    } else {
        let first = deliver(nodes, targets[from].raw as int, v, (fuel - 1) as nat);
        if !(first.status is Settled) {
            first
        } else {
            let rest = dispatch(first.nodes, targets, v, from + 1, fuel);
            Outcome {
                nodes: rest.nodes,
                emissions: first.emissions + rest.emissions,
                status: rest.status,
            }
        }
    }
}

} // verus!
