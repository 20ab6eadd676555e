//! The types of the values that flow through a network: where every node
//! holds and gets what it declares, every node sends what it declares.

use vstd::prelude::*;
use crate::frp::message::Value;
use crate::frp::message::ValueType;
use crate::frp::model::behavior_side;
use crate::frp::model::current_value_of;
use crate::frp::model::current_value_within;
use crate::frp::model::deliver;
use crate::frp::model::dispatch;
use crate::frp::model::Emission;
use crate::frp::model::emit_event;
use crate::frp::model::handle_ok;
use crate::frp::model::node_ok;
use crate::frp::model::well_formed;
use crate::frp::node::AnyEventConsumer;
use crate::frp::node::HoldShape;
use crate::frp::node::lambda1_result;
use crate::frp::node::lambda2_result;
use crate::frp::node::NodeModel;
use crate::frp::node::Shape;
use crate::frp::node::ToggleShape;

verus! {

/// The function gives a value of the type `output` for every value of the
/// type `input`.
pub open spec fn lambda1_typed<F: Fn(&Value) -> Value>(f: F, input: ValueType, output: ValueType) -> bool {
    forall|x: Value| x.spec_value_type() == input ==> (#[trigger] lambda1_result(f, x)).spec_value_type() == output
}

/// The function of a lambda gives a value of the type `output` for every
/// value of the type `input`.
pub open spec fn func_typed<F: Fn(&Value) -> Value>(
    func: crate::frp::node::Lambda1Func<F>,
    input: ValueType,
    output: ValueType,
) -> bool {
    match func {
        crate::frp::node::Lambda1Func::Custom(f) => lambda1_typed(f, input, output),
        crate::frp::node::Lambda1Func::Constant(value) => value.spec_value_type() == output,
    }
}

/// The function gives a value of the type `output` for every pair of values
/// of the types `input1` and `input2`.
pub open spec fn lambda2_typed<G: Fn(&Value, &Value) -> Value>(
    g: G,
    input1: ValueType,
    input2: ValueType,
    output: ValueType,
) -> bool {
    forall|x1: Value, x2: Value|
        x1.spec_value_type() == input1 && x2.spec_value_type() == input2 ==> (#[trigger] lambda2_result(
            g,
            x1,
            x2,
        )).spec_value_type() == output
}

/// The type of the events that the node `t` is made for, if it looks at
/// the values of the events that it receives.
pub open spec fn expected_type<F, G>(nodes: Seq<NodeModel<F, G>>, t: int) -> Option<ValueType> {
    match nodes[t].shape {
        Shape::Source(_) => None,
        Shape::Merge(_) => Some(nodes[t].value_type),
        Shape::Toggle(_) => None,
        Shape::Hold(_) => Some(nodes[t].value_type),
        Shape::Recursive(_) => Some(nodes[t].value_type),
        Shape::Sample(_) => None,
        Shape::Gate(_) => Some(nodes[t].value_type),
        Shape::Lambda(s) => Some(nodes[s.source.id as int].value_type),
        Shape::Lambda2(s) => if s.source1.output is Event {
            Some(nodes[s.source1.id as int].value_type)
        } else {
            Some(nodes[s.source2.id as int].value_type)
        },
    }
}

/// The shape holds values of the type `value_type` and makes values of the
/// type from what its inputs declare.
pub open spec fn shape_typed<F: Fn(&Value) -> Value, G: Fn(&Value, &Value) -> Value>(
    nodes: Seq<NodeModel<F, G>>,
    shape: Shape<F, G>,
    value_type: ValueType,
) -> bool {
    match shape {
        Shape::Source(s) => s.storage.spec_value_type() == value_type,
        Shape::Merge(_) => true,
        Shape::Toggle(_) => value_type == ValueType::Bool,
        Shape::Hold(s) => s.last_val.spec_value_type() == value_type,
        Shape::Recursive(s) => match s.source {
            Some(n) => nodes[n.id as int].value_type == value_type,
            None => true,
        },
        Shape::Sample(s) => nodes[behavior_side(s.source1, s.source2).id as int].value_type == value_type,
        Shape::Gate(_) => true,
        Shape::Lambda(s) => func_typed(s.func, nodes[s.source.id as int].value_type, value_type),
        Shape::Lambda2(s) => lambda2_typed(
            s.func.raw,
            nodes[s.source1.id as int].value_type,
            nodes[s.source2.id as int].value_type,
            value_type,
        ),
    }
}

/// The node `i` holds values of its type, makes values of its type from
/// what its inputs declare, and notifies only nodes that are made for
/// events of its type.
pub open spec fn node_typed<F: Fn(&Value) -> Value, G: Fn(&Value, &Value) -> Value>(
    nodes: Seq<NodeModel<F, G>>,
    i: int,
) -> bool {
    &&& forall|k: int|
        0 <= k < nodes[i].targets.len() ==> (expected_type(nodes, (#[trigger] nodes[i].targets[k]).raw as int) matches Some(
            ty,
        ) ==> ty == nodes[i].value_type)
    &&& shape_typed(nodes, nodes[i].shape, nodes[i].value_type)
}

/// Every node of the network holds, makes and passes on values of the
/// types that are declared.
pub open spec fn well_typed<F: Fn(&Value) -> Value, G: Fn(&Value, &Value) -> Value>(
    nodes: Seq<NodeModel<F, G>>,
) -> bool {
    forall|i: int| 0 <= i < nodes.len() ==> #[trigger] node_typed(nodes, i)
}

/// Every notification carries a value of the type of the node that sent it.
pub open spec fn emissions_typed<F, G>(nodes: Seq<NodeModel<F, G>>, emissions: Seq<Emission>) -> bool {
    forall|j: int|
        0 <= j < emissions.len() ==> ((#[trigger] emissions[j]).node as int) < nodes.len()
            && emissions[j].value.spec_value_type() == nodes[emissions[j].node as int].value_type
}

/// In a well-typed network the current value of a node is of the type of
/// the node.
pub proof fn lemma_current_value_typed<F: Fn(&Value) -> Value, G: Fn(&Value, &Value) -> Value>(
    nodes: Seq<NodeModel<F, G>>,
    id: int,
    fuel: nat,
)
    requires
        well_formed(nodes),
        well_typed(nodes),
    ensures
        current_value_within(nodes, id, fuel) matches Some(x) ==> x.spec_value_type() == nodes[id].value_type,
    decreases fuel,
{
    if 0 <= id < nodes.len() && nodes[id].output is Behavior {
        assert(node_typed(nodes, id));
        assert(node_ok(nodes, id));
        match nodes[id].shape {
            Shape::Recursive(s) => {
                match s.source {
                    Some(n) => {
                        if fuel > 0 {
                            lemma_current_value_typed(nodes, n.id as int, (fuel - 1) as nat);
                        }
                    },
                    None => {},
                }
            },
            _ => {},
        }
    }
}

/// Two states of a network in which the same types are declared and the
/// same functions are used: they differ at most in what the nodes remember.
pub open spec fn same_types<F, G>(a: Seq<NodeModel<F, G>>, b: Seq<NodeModel<F, G>>) -> bool {
    &&& a.len() == b.len()
    &&& forall|i: int|
        0 <= i < a.len() ==> {
            &&& (#[trigger] b[i]).targets == a[i].targets
            &&& b[i].value_type == a[i].value_type
            &&& b[i].output == a[i].output
            &&& match (a[i].shape, b[i].shape) {
                (Shape::Toggle(x), Shape::Toggle(y)) => x.source == y.source,
                (Shape::Hold(x), Shape::Hold(y)) => x.source == y.source,
                (x, y) => x == y,
            }
        }
}

/// A well-typed network in which one toggle has flipped, or one hold has
/// stored a value of its type, is well typed.
pub proof fn lemma_memory_keeps_types<F: Fn(&Value) -> Value, G: Fn(&Value, &Value) -> Value>(
    nodes: Seq<NodeModel<F, G>>,
    t: int,
    shape: Shape<F, G>,
)
    requires
        well_formed(nodes),
        well_typed(nodes),
        0 <= t < nodes.len(),
        match (nodes[t].shape, shape) {
            (Shape::Toggle(a), Shape::Toggle(b)) => a.source == b.source,
            (Shape::Hold(a), Shape::Hold(b)) => a.source == b.source && b.last_val.spec_value_type()
                == nodes[t].value_type,
            _ => false,
        },
    ensures
        well_typed(nodes.update(t, nodes[t].with_shape(shape))),
        same_types(nodes, nodes.update(t, nodes[t].with_shape(shape))),
{
    let after = nodes.update(t, nodes[t].with_shape(shape));
    assert(same_types(nodes, after));
    assert forall|i: int| 0 <= i < after.len() implies #[trigger] node_typed(after, i) by {
        assert(node_typed(nodes, i));
        assert(node_ok(nodes, i));
        if i != t {
            assert(after[i] == nodes[i]);
            match nodes[i].shape {
                Shape::Recursive(s) => {
                    if s.source is Some {
                        assert(after[s.source->Some_0.id as int].value_type
                            == nodes[s.source->Some_0.id as int].value_type);
                    }
                },
                Shape::Sample(s) => {
                    assert(after[behavior_side(s.source1, s.source2).id as int].value_type
                        == nodes[behavior_side(s.source1, s.source2).id as int].value_type);
                },
                Shape::Lambda(s) => {
                    assert(after[s.source.id as int].value_type == nodes[s.source.id as int].value_type);
                },
                Shape::Lambda2(s) => {
                    assert(after[s.source1.id as int].value_type == nodes[s.source1.id as int].value_type);
                    assert(after[s.source2.id as int].value_type == nodes[s.source2.id as int].value_type);
                },
                _ => {},
            }
        }
        assert forall|k: int| 0 <= k < after[i].targets.len() implies (expected_type(
            after,
            (#[trigger] after[i].targets[k]).raw as int,
        ) matches Some(ty) ==> ty == after[i].value_type) by {
            let target = nodes[i].targets[k].raw as int;
            assert(after[i].targets[k] == nodes[i].targets[k]);
            assert(node_ok(nodes, i));
            lemma_expected_type_stays(nodes, after, target);
        }
    }
}

/// What a node is made for depends on what is declared only.
pub proof fn lemma_expected_type_stays<F: Fn(&Value) -> Value, G: Fn(&Value, &Value) -> Value>(
    a: Seq<NodeModel<F, G>>,
    b: Seq<NodeModel<F, G>>,
    t: int,
)
    requires
        well_formed(a),
        same_types(a, b),
        0 <= t < a.len(),
    ensures
        expected_type(b, t) == expected_type(a, t),
{
    assert(node_ok(a, t));
    assert(b[t].value_type == a[t].value_type);
    match a[t].shape {
        Shape::Lambda(s) => {
            assert(b[s.source.id as int].value_type == a[s.source.id as int].value_type);
        },
        Shape::Lambda2(s) => {
            assert(b[s.source1.id as int].value_type == a[s.source1.id as int].value_type);
            assert(b[s.source2.id as int].value_type == a[s.source2.id as int].value_type);
        },
        _ => {},
    }
}

/// States that differ at most in what the nodes remember are all well
/// formed if one is.
pub proof fn lemma_same_types_well_formed<F: Fn(&Value) -> Value, G: Fn(&Value, &Value) -> Value>(
    a: Seq<NodeModel<F, G>>,
    b: Seq<NodeModel<F, G>>,
)
    requires
        well_formed(a),
        same_types(a, b),
    ensures
        well_formed(b),
{
    assert forall|i: int| 0 <= i < b.len() implies #[trigger] node_ok(b, i) by {
        assert(node_ok(a, i));
        assert(b[i].targets == a[i].targets);
        crate::frp::wiring::lemma_shape_ok_extends(a, b, a[i].shape, a[i].output);
    }
}

/// The relation between states that differ at most in what the nodes
/// remember is transitive.
pub proof fn lemma_same_types_transitive<F, G>(
    a: Seq<NodeModel<F, G>>,
    b: Seq<NodeModel<F, G>>,
    c: Seq<NodeModel<F, G>>,
)
    requires
        same_types(a, b),
        same_types(b, c),
    ensures
        same_types(a, c),
{
    assert forall|i: int| 0 <= i < a.len() implies {
        &&& (#[trigger] c[i]).targets == a[i].targets
        &&& c[i].value_type == a[i].value_type
        &&& c[i].output == a[i].output
        &&& match (a[i].shape, c[i].shape) {
            (Shape::Toggle(x), Shape::Toggle(y)) => x.source == y.source,
            (Shape::Hold(x), Shape::Hold(y)) => x.source == y.source,
            (x, y) => x == y,
        }
    } by {
        assert(b[i].targets == a[i].targets);
    }
}

/// Notifications that are typed in one state are typed in every state that
/// differs from it at most in what the nodes remember.
pub proof fn lemma_emissions_typed_in<F, G>(a: Seq<NodeModel<F, G>>, b: Seq<NodeModel<F, G>>, emissions: Seq<
    Emission,
>)
    requires
        same_types(a, b),
        emissions_typed(b, emissions),
    ensures
        emissions_typed(a, emissions),
{
    assert forall|j: int| 0 <= j < emissions.len() implies ((#[trigger] emissions[j]).node as int) < a.len()
        && emissions[j].value.spec_value_type() == a[emissions[j].node as int].value_type by {
        assert(b[emissions[j].node as int].value_type == a[emissions[j].node as int].value_type);
    }
}

/// Notifications that are typed, one sequence after the other, are typed.
pub proof fn lemma_emissions_typed_concat<F, G>(nodes: Seq<NodeModel<F, G>>, a: Seq<Emission>, b: Seq<Emission>)
    requires
        emissions_typed(nodes, a),
        emissions_typed(nodes, b),
    ensures
        emissions_typed(nodes, a + b),
{
    assert forall|j: int| 0 <= j < (a + b).len() implies ((#[trigger] (a + b)[j]).node as int) < nodes.len() && (a
        + b)[j].value.spec_value_type() == nodes[(a + b)[j].node as int].value_type by {
        if j < a.len() {
            assert((a + b)[j] == a[j]);
        } else {
            assert((a + b)[j] == b[j - a.len()]);
        }
    }
}

/// In a well-typed network values keep to the types that are declared:
/// when a node sends a value of its type, every notification that follows
/// carries a value of the type of the node that sends it, and the network is
/// well typed afterwards. Only what toggles and holds remember has changed.
pub proof fn law_propagation_is_typed<F: Fn(&Value) -> Value, G: Fn(&Value, &Value) -> Value>(
    nodes: Seq<NodeModel<F, G>>,
    n: int,
    v: Value,
    fuel: nat,
)
    requires
        well_formed(nodes),
        well_typed(nodes),
        nodes.len() <= usize::MAX,
        0 <= n < nodes.len(),
        v.spec_value_type() == nodes[n].value_type,
    ensures
        same_types(nodes, emit_event(nodes, n, v, fuel).nodes),
        well_typed(emit_event(nodes, n, v, fuel).nodes),
        emissions_typed(nodes, emit_event(nodes, n, v, fuel).emissions),
    decreases fuel, 1nat, 0nat,
{
    lemma_dispatch_typed(nodes, n, nodes[n].targets, v, 0, fuel);
    let rest = dispatch(nodes, nodes[n].targets, v, 0, fuel);
    let first = seq![Emission { node: n as usize, value: v }];
    assert(emissions_typed(nodes, first));
    lemma_emissions_typed_concat(nodes, first, rest.emissions);
}

/// What `law_propagation_is_typed` says, of a node that receives a value of
/// the type that it is made for.
pub proof fn lemma_deliver_typed<F: Fn(&Value) -> Value, G: Fn(&Value, &Value) -> Value>(
    nodes: Seq<NodeModel<F, G>>,
    t: int,
    v: Value,
    fuel: nat,
)
    requires
        well_formed(nodes),
        well_typed(nodes),
        nodes.len() <= usize::MAX,
        0 <= t < nodes.len(),
        expected_type(nodes, t) matches Some(ty) ==> v.spec_value_type() == ty,
    ensures
        same_types(nodes, deliver(nodes, t, v, fuel).nodes),
        well_typed(deliver(nodes, t, v, fuel).nodes),
        emissions_typed(nodes, deliver(nodes, t, v, fuel).emissions),
    decreases fuel, 2nat, 0nat,
{
    assert(node_typed(nodes, t));
    assert(node_ok(nodes, t));
    match nodes[t].shape {
        Shape::Source(_) => {},
        Shape::Merge(_) => {
            law_propagation_is_typed(nodes, t, v, fuel);
        },
        Shape::Toggle(s) => {
            let shape = Shape::Toggle(ToggleShape { source: s.source, status: !s.status });
            let flipped = nodes.update(t, nodes[t].with_shape(shape));
            lemma_memory_keeps_types(nodes, t, shape);
            lemma_same_types_well_formed(nodes, flipped);
            law_propagation_is_typed(flipped, t, Value::Bool(!s.status), fuel);
            let o = emit_event(flipped, t, Value::Bool(!s.status), fuel);
            lemma_same_types_transitive(nodes, flipped, o.nodes);
            lemma_emissions_typed_in(nodes, flipped, o.emissions);
        },
        Shape::Hold(s) => {
            let shape = Shape::Hold(HoldShape { source: s.source, last_val: v });
            lemma_memory_keeps_types(nodes, t, shape);
        },
        Shape::Recursive(_) => {
            law_propagation_is_typed(nodes, t, v, fuel);
        },
        Shape::Sample(s) => {
            let side = behavior_side(s.source1, s.source2).id as int;
            lemma_current_value_typed(nodes, side, nodes.len());
            match current_value_of(nodes, side) {
                Some(x) => {
                    law_propagation_is_typed(nodes, t, x, fuel);
                },
                None => {},
            }
        },
        Shape::Gate(s) => {
            match current_value_of(nodes, s.source1.id as int) {
                Some(x) => {
                    if x == Value::Bool(true) {
                        law_propagation_is_typed(nodes, t, v, fuel);
                    }
                },
                None => {},
            }
        },
        Shape::Lambda(s) => {
            law_propagation_is_typed(nodes, t, s.func.spec_apply(v), fuel);
        },
        Shape::Lambda2(s) => {
            let side = behavior_side(s.source1, s.source2).id as int;
            lemma_current_value_typed(nodes, side, nodes.len());
            match current_value_of(nodes, side) {
                Some(x) => {
                    if s.source1.output is Behavior {
                        law_propagation_is_typed(nodes, t, lambda2_result(s.func.raw, x, v), fuel);
                    } else {
                        law_propagation_is_typed(nodes, t, lambda2_result(s.func.raw, v, x), fuel);
                    }
                },
                None => {},
            }
        },
    }
}

/// What `law_propagation_is_typed` says, of the targets of the node `n`
/// that are notified one after the other.
pub proof fn lemma_dispatch_typed<F: Fn(&Value) -> Value, G: Fn(&Value, &Value) -> Value>(
    nodes: Seq<NodeModel<F, G>>,
    n: int,
    targets: Seq<AnyEventConsumer>,
    v: Value,
    from: int,
    fuel: nat,
)
    requires
        well_formed(nodes),
        well_typed(nodes),
        nodes.len() <= usize::MAX,
        0 <= n < nodes.len(),
        targets == nodes[n].targets,
        v.spec_value_type() == nodes[n].value_type,
    ensures
        same_types(nodes, dispatch(nodes, targets, v, from, fuel).nodes),
        well_typed(dispatch(nodes, targets, v, from, fuel).nodes),
        emissions_typed(nodes, dispatch(nodes, targets, v, from, fuel).emissions),
    decreases fuel, 0nat, targets.len() - from,
{
    if 0 <= from < targets.len() && fuel > 0 {
        let t = targets[from].raw as int;
        assert(node_ok(nodes, n));
        assert(node_typed(nodes, n));
        assert(nodes[n].targets[from].raw < nodes.len());
        let first = deliver(nodes, t, v, (fuel - 1) as nat);
        lemma_deliver_typed(nodes, t, v, (fuel - 1) as nat);
        if first.status is Settled {
            lemma_same_types_well_formed(nodes, first.nodes);
            let rest = dispatch(first.nodes, targets, v, from + 1, fuel);
            lemma_dispatch_typed(first.nodes, n, targets, v, from + 1, fuel);
            lemma_same_types_transitive(nodes, first.nodes, rest.nodes);
            lemma_emissions_typed_in(nodes, first.nodes, rest.emissions);
            lemma_emissions_typed_concat(nodes, first.emissions, rest.emissions);
        }
    }
}

// ---------------------------------------------------------------------------
// Wiring keeps the types
// ---------------------------------------------------------------------------

/// A shape that is typed in a network is typed in every network that has
/// the same nodes with the same types, and more.
pub proof fn lemma_shape_typed_extends<F: Fn(&Value) -> Value, G: Fn(&Value, &Value) -> Value>(
    before: Seq<NodeModel<F, G>>,
    after: Seq<NodeModel<F, G>>,
    shape: Shape<F, G>,
    output: crate::frp::message::MessageType,
    value_type: ValueType,
)
    requires
        crate::frp::model::shape_ok(before, shape, output),
        shape_typed(before, shape, value_type),
        before.len() <= after.len(),
        forall|i: int| 0 <= i < before.len() ==> (#[trigger] after[i]).value_type == before[i].value_type,
    ensures
        shape_typed(after, shape, value_type),
{
    match shape {
        Shape::Recursive(s) => {
            if s.source is Some {
                assert(after[s.source->Some_0.id as int].value_type == before[s.source->Some_0.id as int].value_type);
            }
        },
        Shape::Sample(s) => {
            assert(after[behavior_side(s.source1, s.source2).id as int].value_type == before[behavior_side(
                s.source1,
                s.source2,
            ).id as int].value_type);
        },
        Shape::Lambda(s) => {
            assert(after[s.source.id as int].value_type == before[s.source.id as int].value_type);
        },
        Shape::Lambda2(s) => {
            assert(after[s.source1.id as int].value_type == before[s.source1.id as int].value_type);
            assert(after[s.source2.id as int].value_type == before[s.source2.id as int].value_type);
        },
        _ => {},
    }
}

/// What a node is made for is the same in every network that has the same
/// nodes with the same shapes and types, and more.
pub proof fn lemma_expected_type_extends<F: Fn(&Value) -> Value, G: Fn(&Value, &Value) -> Value>(
    before: Seq<NodeModel<F, G>>,
    after: Seq<NodeModel<F, G>>,
    t: int,
)
    requires
        well_formed(before),
        0 <= t < before.len(),
        before.len() <= after.len(),
        forall|i: int|
            0 <= i < before.len() ==> (#[trigger] after[i]).value_type == before[i].value_type && after[i].shape
                == before[i].shape,
    ensures
        expected_type(after, t) == expected_type(before, t),
{
    assert(node_ok(before, t));
    assert(after[t].shape == before[t].shape);
    match before[t].shape {
        Shape::Lambda(s) => {
            assert(after[s.source.id as int].value_type == before[s.source.id as int].value_type);
        },
        Shape::Lambda2(s) => {
            assert(after[s.source1.id as int].value_type == before[s.source1.id as int].value_type);
            assert(after[s.source2.id as int].value_type == before[s.source2.id as int].value_type);
        },
        _ => {},
    }
}

/// Adding a node whose shape is typed keeps the network well typed.
pub proof fn lemma_with_node_typed<F: Fn(&Value) -> Value, G: Fn(&Value, &Value) -> Value>(
    nodes: Seq<NodeModel<F, G>>,
    label: Seq<char>,
    output: crate::frp::message::MessageType,
    value_type: ValueType,
    shape: Shape<F, G>,
)
    requires
        well_formed(nodes),
        well_typed(nodes),
        crate::frp::model::shape_ok(nodes, shape, output),
        shape_typed(nodes, shape, value_type),
    ensures
        well_typed(crate::frp::wiring::with_node(nodes, label, output, value_type, shape)),
{
    let after = crate::frp::wiring::with_node(nodes, label, output, value_type, shape);
    assert forall|i: int| 0 <= i < after.len() implies #[trigger] node_typed(after, i) by {
        if i < nodes.len() {
            assert(node_typed(nodes, i));
            assert(node_ok(nodes, i));
            assert(after[i] == nodes[i]);
            lemma_shape_typed_extends(nodes, after, nodes[i].shape, nodes[i].output, nodes[i].value_type);
            assert forall|k: int| 0 <= k < after[i].targets.len() implies (expected_type(
                after,
                (#[trigger] after[i].targets[k]).raw as int,
            ) matches Some(ty) ==> ty == after[i].value_type) by {
                lemma_expected_type_extends(nodes, after, nodes[i].targets[k].raw as int);
            }
        } else {
            lemma_shape_typed_extends(nodes, after, shape, output, value_type);
        }
    }
}

/// Registering a listener that is made for the events of the source keeps
/// the network well typed.
pub proof fn lemma_with_listener_typed<F: Fn(&Value) -> Value, G: Fn(&Value, &Value) -> Value>(
    nodes: Seq<NodeModel<F, G>>,
    source: crate::frp::node::Node,
    listener: int,
)
    requires
        well_formed(nodes),
        well_typed(nodes),
        handle_ok(nodes, source),
        nodes.len() <= usize::MAX,
        0 <= listener < nodes.len(),
        source.output is Event ==> (expected_type(nodes, listener) matches Some(ty) ==> ty
            == nodes[source.id as int].value_type),
    ensures
        well_typed(crate::frp::wiring::with_listener(nodes, source, listener)),
{
    let after = crate::frp::wiring::with_listener(nodes, source, listener);
    assert forall|i: int| 0 <= i < after.len() implies #[trigger] node_typed(after, i) by {
        assert(node_typed(nodes, i));
        assert(node_ok(nodes, i));
        assert(after[i].shape == nodes[i].shape);
        lemma_shape_typed_extends(nodes, after, nodes[i].shape, nodes[i].output, nodes[i].value_type);
        assert forall|k: int| 0 <= k < after[i].targets.len() implies (expected_type(
            after,
            (#[trigger] after[i].targets[k]).raw as int,
        ) matches Some(ty) ==> ty == after[i].value_type) by {
            if source.output is Event && i == source.id && k == nodes[i].targets.len() {
                lemma_expected_type_extends(nodes, after, listener);
            } else {
                assert(after[i].targets[k] == nodes[i].targets[k]);
                lemma_expected_type_extends(nodes, after, nodes[i].targets[k].raw as int);
            }
        }
    }
}

/// Changing the identifier under which a node is shown keeps the network
/// well typed.
pub proof fn lemma_display_id_typed<F: Fn(&Value) -> Value, G: Fn(&Value, &Value) -> Value>(
    nodes: Seq<NodeModel<F, G>>,
    id: int,
    display_id: usize,
)
    requires
        well_formed(nodes),
        well_typed(nodes),
        0 <= id < nodes.len(),
    ensures
        well_typed(nodes.update(id, nodes[id].with_display_id(display_id))),
{
    let after = nodes.update(id, nodes[id].with_display_id(display_id));
    assert forall|i: int| 0 <= i < after.len() implies #[trigger] node_typed(after, i) by {
        assert(node_typed(nodes, i));
        assert(node_ok(nodes, i));
        lemma_shape_typed_extends(nodes, after, nodes[i].shape, nodes[i].output, nodes[i].value_type);
        assert forall|k: int| 0 <= k < after[i].targets.len() implies (expected_type(
            after,
            (#[trigger] after[i].targets[k]).raw as int,
        ) matches Some(ty) ==> ty == after[i].value_type) by {
            assert(after[i].targets[k] == nodes[i].targets[k]);
            lemma_expected_type_extends(nodes, after, nodes[i].targets[k].raw as int);
        }
    }
}

/// What a node is made for is the same in two networks in which the same
/// types are declared and the same shapes are used, but that recursive
/// nodes may have other upstream nodes.
pub proof fn lemma_expected_type_alike<F: Fn(&Value) -> Value, G: Fn(&Value, &Value) -> Value>(
    before: Seq<NodeModel<F, G>>,
    after: Seq<NodeModel<F, G>>,
    t: int,
)
    requires
        well_formed(before),
        0 <= t < before.len(),
        before.len() == after.len(),
        forall|i: int| 0 <= i < before.len() ==> (#[trigger] after[i]).value_type == before[i].value_type,
        after[t].shape == before[t].shape || (after[t].shape is Recursive && before[t].shape is Recursive),
    ensures
        expected_type(after, t) == expected_type(before, t),
{
    assert(node_ok(before, t));
    assert(after[t].value_type == before[t].value_type);
    match before[t].shape {
        Shape::Lambda(s) => {
            assert(after[s.source.id as int].value_type == before[s.source.id as int].value_type);
        },
        Shape::Lambda2(s) => {
            assert(after[s.source1.id as int].value_type == before[s.source1.id as int].value_type);
            assert(after[s.source2.id as int].value_type == before[s.source2.id as int].value_type);
        },
        _ => {},
    }
}

/// Filling the empty source of a recursive node with a node of its type
/// keeps the network well typed.
pub proof fn lemma_recursive_source_typed<F: Fn(&Value) -> Value, G: Fn(&Value, &Value) -> Value>(
    nodes: Seq<NodeModel<F, G>>,
    id: int,
    upstream: crate::frp::node::Node,
)
    requires
        well_formed(nodes),
        well_typed(nodes),
        0 <= id < nodes.len(),
        nodes[id].shape is Recursive,
        (upstream.id as int) < nodes.len(),
        nodes[upstream.id as int].value_type == nodes[id].value_type,
    ensures
        well_typed(
            nodes.update(
                id,
                nodes[id].with_shape(
                    Shape::Recursive(crate::frp::node::RecursiveShape2 { source: Some(upstream) }),
                ),
            ),
        ),
{
    let after = nodes.update(
        id,
        nodes[id].with_shape(Shape::Recursive(crate::frp::node::RecursiveShape2 { source: Some(upstream) })),
    );
    assert forall|i: int| 0 <= i < after.len() implies #[trigger] node_typed(after, i) by {
        assert(node_typed(nodes, i));
        assert(node_ok(nodes, i));
        if i != id {
            assert(after[i] == nodes[i]);
            lemma_shape_typed_extends(nodes, after, nodes[i].shape, nodes[i].output, nodes[i].value_type);
        } else {
            assert(after[upstream.id as int].value_type == nodes[upstream.id as int].value_type);
        }
        assert forall|k: int| 0 <= k < after[i].targets.len() implies (expected_type(
            after,
            (#[trigger] after[i].targets[k]).raw as int,
        ) matches Some(ty) ==> ty == after[i].value_type) by {
            assert(after[i].targets[k] == nodes[i].targets[k]);
            lemma_expected_type_alike(nodes, after, nodes[i].targets[k].raw as int);
        }
    }
}

/// Giving an empty recursive node an upstream node of its type keeps the
/// network well typed.
pub proof fn lemma_with_upstream_typed<F: Fn(&Value) -> Value, G: Fn(&Value, &Value) -> Value>(
    nodes: Seq<NodeModel<F, G>>,
    id: int,
    upstream: crate::frp::node::Node,
)
    requires
        well_formed(nodes),
        well_typed(nodes),
        nodes.len() <= usize::MAX,
        0 <= id < nodes.len(),
        nodes[id].shape is Recursive,
        handle_ok(nodes, upstream),
        upstream.output == nodes[id].output,
        nodes[upstream.id as int].value_type == nodes[id].value_type,
    ensures
        well_typed(crate::frp::wiring::with_upstream(nodes, id, upstream)),
{
    let listened = crate::frp::wiring::with_listener(nodes, upstream, id);
    lemma_with_listener_typed(nodes, upstream, id);
    crate::frp::wiring::lemma_with_listener_well_formed(nodes, upstream, id);
    let display_id = listened[upstream.id as int].display_id;
    let shown = listened.update(id, listened[id].with_display_id(display_id));
    lemma_display_id_typed(listened, id, display_id);
    crate::frp::wiring::lemma_display_id_well_formed(listened, id, display_id);
    lemma_recursive_source_typed(shown, id, upstream);
    assert(crate::frp::wiring::with_upstream(nodes, id, upstream) =~= shown.update(
        id,
        shown[id].with_shape(Shape::Recursive(crate::frp::node::RecursiveShape2 { source: Some(upstream) })),
    ));
}

} // verus!
