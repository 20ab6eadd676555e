//! Laws of the combinators: what holds of every network, of every value and
//! of every sequence of events.

use vstd::prelude::*;
use crate::frp::combinators::gate_wired;
use crate::frp::combinators::hold_wired;
use crate::frp::combinators::merge_wired;
use crate::frp::combinators::recursive_wired;
use crate::frp::combinators::sample_wired;
use crate::frp::combinators::source_wired;
use crate::frp::combinators::toggle_wired;
use crate::frp::message::MessageType;
use crate::frp::message::Value;
use crate::frp::message::ValueType;
use crate::frp::model::behavior_side;
use crate::frp::model::current_value_of;
use crate::frp::model::deliver;
use crate::frp::model::dispatch;
use crate::frp::model::Emission;
use crate::frp::model::emit_event;
use crate::frp::model::feed_forward;
use crate::frp::model::Outcome;
use crate::frp::model::Status;
use crate::frp::network::lemma_same_wiring_transitive;
use crate::frp::network::same_wiring;
use crate::frp::node::AnyEventConsumer;
use crate::frp::node::HoldShape;
use crate::frp::node::lambda2_result;
use crate::frp::node::Node;
use crate::frp::node::NodeModel;
use crate::frp::node::RecursiveShape2;
use crate::frp::node::Shape;
use crate::frp::node::ToggleShape;
use crate::frp::wiring::with_upstream;

verus! {

/// The values that the node `node` sent, in the order of the notifications.
pub open spec fn sent_by(emissions: Seq<Emission>, node: int) -> Seq<Value>
    decreases emissions.len(),
{
    if emissions.len() == 0 {
        Seq::empty()
    } else if emissions.last().node == node {
        sent_by(emissions.drop_last(), node).push(emissions.last().value)
    } else {
        sent_by(emissions.drop_last(), node)
    }
}

/// What a node sent during two propagations is what it sent during the
/// first, followed by what it sent during the second.
pub proof fn lemma_sent_by_concat(a: Seq<Emission>, b: Seq<Emission>, node: int)
    ensures
        sent_by(a + b, node) == sent_by(a, node) + sent_by(b, node),
    decreases b.len(),
{
    if b.len() == 0 {
        assert(a + b =~= a);
        assert(sent_by(a, node) + sent_by(b, node) =~= sent_by(a, node));
    } else {
        assert((a + b).drop_last() =~= a + b.drop_last());
        assert((a + b).last() == b.last());
        lemma_sent_by_concat(a, b.drop_last(), node);
        if b.last().node == node {
            assert(sent_by(a, node) + sent_by(b.drop_last(), node).push(b.last().value) =~= (sent_by(a, node)
                + sent_by(b.drop_last(), node)).push(b.last().value));
        }
    }
}

/// A node without targets that sends a value notifies nobody: the
/// notification is recorded and nothing changes.
pub proof fn lemma_emit_without_targets<F: Fn(&Value) -> Value, G: Fn(&Value, &Value) -> Value>(
    nodes: Seq<NodeModel<F, G>>,
    n: int,
    v: Value,
    fuel: nat,
)
    requires
        0 <= n < nodes.len(),
        nodes[n].targets.len() == 0,
    ensures
        emit_event(nodes, n, v, fuel).nodes == nodes,
        emit_event(nodes, n, v, fuel).emissions == seq![Emission { node: n as usize, value: v }],
        emit_event(nodes, n, v, fuel).status is Settled,
{
    let e = seq![Emission { node: n as usize, value: v }];
    assert(e + Seq::<Emission>::empty() =~= e);
}

/// A node with one target that sends a value notifies the target: what
/// happens is what the target does with the value.
pub proof fn lemma_emit_to_one_target<F: Fn(&Value) -> Value, G: Fn(&Value, &Value) -> Value>(
    nodes: Seq<NodeModel<F, G>>,
    n: int,
    v: Value,
    fuel: nat,
)
    requires
        0 <= n < nodes.len(),
        nodes[n].targets.len() == 1,
        fuel >= 1,
    ensures
        emit_event(nodes, n, v, fuel).nodes == deliver(
            nodes,
            nodes[n].targets[0].raw as int,
            v,
            (fuel - 1) as nat,
        ).nodes,
        emit_event(nodes, n, v, fuel).emissions == seq![Emission { node: n as usize, value: v }] + deliver(
            nodes,
            nodes[n].targets[0].raw as int,
            v,
            (fuel - 1) as nat,
        ).emissions,
        emit_event(nodes, n, v, fuel).status == deliver(
            nodes,
            nodes[n].targets[0].raw as int,
            v,
            (fuel - 1) as nat,
        ).status,
{
    let targets = nodes[n].targets;
    let first = deliver(nodes, targets[0].raw as int, v, (fuel - 1) as nat);
    let all = dispatch(nodes, targets, v, 0, fuel);
    if first.status is Settled {
        let rest = dispatch(first.nodes, targets, v, 1, fuel);
        assert(rest.emissions =~= Seq::<Emission>::empty());
        assert(first.emissions + rest.emissions =~= first.emissions);
        assert(all.emissions == first.emissions);
    }
}

// ---------------------------------------------------------------------------
// Merge
// ---------------------------------------------------------------------------

/// A merge that receives a value sends it on unchanged: the first
/// notification that follows is that of the merge, with the value.
pub proof fn law_merge_passes_value_on<F: Fn(&Value) -> Value, G: Fn(&Value, &Value) -> Value>(
    nodes: Seq<NodeModel<F, G>>,
    m: int,
    v: Value,
    fuel: nat,
)
    requires
        0 <= m < nodes.len(),
        nodes[m].shape is Merge,
    ensures
        deliver(nodes, m, v, fuel).emissions.len() >= 1,
        deliver(nodes, m, v, fuel).emissions[0] == (Emission { node: m as usize, value: v }),
{
}

/// Two sources and their merge, added to any network: an event of either
/// source makes the merge send the event on, and nothing else happens. So
/// when the first source fires `a1` and then the second fires `a2`, the merge
/// sends `a1` and then `a2`; when they fire in the other order, it sends `a2`
/// and then `a1`.
pub proof fn law_merge_keeps_firing_order<F: Fn(&Value) -> Value, G: Fn(&Value, &Value) -> Value>(
    nodes: Seq<NodeModel<F, G>>,
    label1: Seq<char>,
    label2: Seq<char>,
    label: Seq<char>,
    value_type: ValueType,
    a1: Value,
    a2: Value,
    fuel: nat,
)
    requires
        fuel >= 1,
        nodes.len() + 3 <= usize::MAX,
    ensures
        ({
            let s1 = nodes.len() as int;
            let s2 = s1 + 1;
            let m = s1 + 2;
            let net = merge_wired(
                source_wired(
                    source_wired(nodes, label1, MessageType::Event, value_type),
                    label2,
                    MessageType::Event,
                    value_type,
                ),
                label,
                Node { id: s1 as usize, output: MessageType::Event },
                Node { id: s2 as usize, output: MessageType::Event },
            );
            let first = emit_event(net, s1, a1, fuel);
            let second = emit_event(net, s2, a2, fuel);
            &&& first.nodes == net
            &&& second.nodes == net
            &&& first.status is Settled
            &&& second.status is Settled
            &&& first.emissions == seq![
                Emission { node: s1 as usize, value: a1 },
                Emission { node: m as usize, value: a1 },
            ]
            &&& second.emissions == seq![
                Emission { node: s2 as usize, value: a2 },
                Emission { node: m as usize, value: a2 },
            ]
            &&& sent_by(first.emissions + second.emissions, m) == seq![a1, a2]
            &&& sent_by(second.emissions + first.emissions, m) == seq![a2, a1]
        }),
{
    let s1 = nodes.len() as int;
    let s2 = s1 + 1;
    let m = s1 + 2;
    let net = merge_wired(
        source_wired(
            source_wired(nodes, label1, MessageType::Event, value_type),
            label2,
            MessageType::Event,
            value_type,
        ),
        label,
        Node { id: s1 as usize, output: MessageType::Event },
        Node { id: s2 as usize, output: MessageType::Event },
    );
    let target = AnyEventConsumer { raw: m as usize };
    assert(net[s1].targets =~= seq![target]);
    assert(net[s2].targets =~= seq![target]);
    assert(net[m].targets =~= Seq::<AnyEventConsumer>::empty());
    assert(net[m].shape is Merge);
    lemma_emit_to_one_target(net, s1, a1, fuel);
    lemma_emit_to_one_target(net, s2, a2, fuel);
    lemma_emit_without_targets(net, m, a1, (fuel - 1) as nat);
    lemma_emit_without_targets(net, m, a2, (fuel - 1) as nat);
    let first = emit_event(net, s1, a1, fuel);
    let second = emit_event(net, s2, a2, fuel);
    let e1 = seq![Emission { node: s1 as usize, value: a1 }, Emission { node: m as usize, value: a1 }];
    let e2 = seq![Emission { node: s2 as usize, value: a2 }, Emission { node: m as usize, value: a2 }];
    assert(first.emissions =~= e1);
    assert(second.emissions =~= e2);
    lemma_sent_by_pair(s1, a1, m, a1, m);
    lemma_sent_by_pair(s2, a2, m, a2, m);
    lemma_sent_by_concat(e1, e2, m);
    lemma_sent_by_concat(e2, e1, m);
    assert(seq![a1] + seq![a2] =~= seq![a1, a2]);
    assert(seq![a2] + seq![a1] =~= seq![a2, a1]);
}

/// Of two notifications, the first by another node and the second by the
/// node `node`, the node sent the second.
pub proof fn lemma_sent_by_pair(other: int, v1: Value, node: int, v2: Value, asked: int)
    requires
        other != node,
        asked == node,
        0 <= other <= usize::MAX,
        0 <= node <= usize::MAX,
    ensures
        sent_by(
            seq![Emission { node: other as usize, value: v1 }, Emission { node: node as usize, value: v2 }],
            asked,
        ) == seq![v2],
{
    let es = seq![Emission { node: other as usize, value: v1 }, Emission { node: node as usize, value: v2 }];
    let head = seq![Emission { node: other as usize, value: v1 }];
    assert(es.drop_last() =~= head);
    assert(head.drop_last() =~= Seq::<Emission>::empty());
    assert(sent_by(Seq::<Emission>::empty(), asked) =~= Seq::<Value>::empty());
    assert(head.last().node != asked);
    assert(sent_by(head, asked) =~= Seq::<Value>::empty());
    assert(es.last().node == asked);
    assert(sent_by(es, asked) =~= seq![v2]);
}

// ---------------------------------------------------------------------------
// Sequences of events
// ---------------------------------------------------------------------------

/// The network after the node `n` has sent the values, one after the other.
pub open spec fn fired<F: Fn(&Value) -> Value, G: Fn(&Value, &Value) -> Value>(
    nodes: Seq<NodeModel<F, G>>,
    n: int,
    values: Seq<Value>,
    fuel: nat,
) -> Seq<NodeModel<F, G>>
    decreases values.len(),
{
    if values.len() == 0 {
        nodes
    } else {
        emit_event(fired(nodes, n, values.drop_last(), fuel), n, values.last(), fuel).nodes
    }
}

/// The value that a hold has after it has received the values, where it had
/// `first` before.
pub open spec fn last_or(values: Seq<Value>, first: Value) -> Value {
    if values.len() == 0 {
        first
    } else {
        values.last()
    }
}

/// A hold that receives a value stores it and sends nothing.
pub proof fn law_hold_stores_value<F: Fn(&Value) -> Value, G: Fn(&Value, &Value) -> Value>(
    nodes: Seq<NodeModel<F, G>>,
    h: int,
    v: Value,
    fuel: nat,
)
    requires
        0 <= h < nodes.len(),
        nodes[h].shape is Hold,
        nodes[h].output is Behavior,
    ensures
        deliver(nodes, h, v, fuel).status is Settled,
        deliver(nodes, h, v, fuel).emissions.len() == 0,
        current_value_of(deliver(nodes, h, v, fuel).nodes, h) == Some(v),
        forall|i: int| 0 <= i < nodes.len() && i != h ==> deliver(nodes, h, v, fuel).nodes[i] == nodes[i],
{
}

/// Where a node has a hold as its only target, and the hold has no targets,
/// the node can send any sequence of values: each time the value is stored
/// and nothing else happens.
pub proof fn lemma_fired_into_hold<F: Fn(&Value) -> Value, G: Fn(&Value, &Value) -> Value>(
    nodes: Seq<NodeModel<F, G>>,
    s: int,
    h: int,
    values: Seq<Value>,
    fuel: nat,
)
    requires
        fuel >= 1,
        nodes.len() <= usize::MAX,
        0 <= s < nodes.len(),
        0 <= h < nodes.len(),
        s != h,
        nodes[s].targets == seq![AnyEventConsumer { raw: h as usize }],
        nodes[h].shape is Hold,
    ensures
        fired(nodes, s, values, fuel) == nodes.update(
            h,
            nodes[h].with_shape(
                Shape::Hold(
                    HoldShape {
                        source: nodes[h].shape->Hold_0.source,
                        last_val: last_or(values, nodes[h].shape->Hold_0.last_val),
                    },
                ),
            ),
        ),
        values.len() > 0 ==> {
            let o = emit_event(fired(nodes, s, values.drop_last(), fuel), s, values.last(), fuel);
            &&& o.status is Settled
            &&& o.emissions == seq![Emission { node: s as usize, value: values.last() }]
        },
    decreases values.len(),
{
    let source = nodes[h].shape->Hold_0.source;
    let first = nodes[h].shape->Hold_0.last_val;
    if values.len() == 0 {
        assert(nodes.update(h, nodes[h].with_shape(Shape::Hold(HoldShape { source, last_val: first })))
            =~= nodes);
    } else {
        lemma_fired_into_hold(nodes, s, h, values.drop_last(), fuel);
        let before = fired(nodes, s, values.drop_last(), fuel);
        lemma_emit_to_one_target(before, s, values.last(), fuel);
        let o = emit_event(before, s, values.last(), fuel);
        assert(o.nodes =~= nodes.update(
            h,
            nodes[h].with_shape(Shape::Hold(HoldShape { source, last_val: values.last() })),
        ));
        let e = seq![Emission { node: s as usize, value: values.last() }];
        assert(e + Seq::<Emission>::empty() =~= e);
    }
}

// ---------------------------------------------------------------------------
// Toggle
// ---------------------------------------------------------------------------

/// A toggle that receives a value flips its flag and sends the new flag on:
/// the first notification that follows is that of the toggle, with the
/// flag. The value that was received plays no part.
pub proof fn law_toggle_flips<F: Fn(&Value) -> Value, G: Fn(&Value, &Value) -> Value>(
    nodes: Seq<NodeModel<F, G>>,
    t: int,
    v: Value,
    fuel: nat,
)
    requires
        0 <= t < nodes.len(),
        nodes[t].shape is Toggle,
    ensures
        deliver(nodes, t, v, fuel).emissions.len() >= 1,
        deliver(nodes, t, v, fuel).emissions[0] == (Emission {
            node: t as usize,
            value: Value::Bool(!nodes[t].shape->Toggle_0.status),
        }),
{
}

/// A source and a toggle of it, added to any network: after the source has
/// fired `n` times, whatever it sent, the toggle has sent `n` flags, and the
/// flag that it sent at the `n`-th firing is `true` exactly if `n` is odd.
pub proof fn law_toggle_sends_parity<F: Fn(&Value) -> Value, G: Fn(&Value, &Value) -> Value>(
    nodes: Seq<NodeModel<F, G>>,
    label1: Seq<char>,
    label2: Seq<char>,
    value_type: ValueType,
    values: Seq<Value>,
    fuel: nat,
)
    requires
        fuel >= 1,
        values.len() >= 1,
        nodes.len() + 2 <= usize::MAX,
    ensures
        ({
            let s = nodes.len() as int;
            let t = s + 1;
            let net = toggle_wired(
                source_wired(nodes, label1, MessageType::Event, value_type),
                label2,
                Node { id: s as usize, output: MessageType::Event },
            );
            let o = emit_event(fired(net, s, values.drop_last(), fuel), s, values.last(), fuel);
            &&& o.status is Settled
            &&& o.emissions == seq![
                Emission { node: s as usize, value: values.last() },
                Emission { node: t as usize, value: Value::Bool(values.len() % 2 == 1) },
            ]
        }),
{
    let s = nodes.len() as int;
    let t = s + 1;
    let source = Node { id: s as usize, output: MessageType::Event };
    let net = toggle_wired(source_wired(nodes, label1, MessageType::Event, value_type), label2, source);
    assert(net[s].targets =~= seq![AnyEventConsumer { raw: t as usize }]);
    assert(net[t].targets =~= Seq::<AnyEventConsumer>::empty());
    lemma_fired_into_toggle(net, s, t, values.drop_last(), fuel);
    let before = fired(net, s, values.drop_last(), fuel);
    lemma_emit_to_one_target(before, s, values.last(), fuel);
    let flag = values.len() % 2 == 1;
    let flipped = before.update(
        t,
        before[t].with_shape(Shape::Toggle(ToggleShape { source, status: flag })),
    );
    lemma_emit_without_targets(flipped, t, Value::Bool(flag), (fuel - 1) as nat);
    let o = emit_event(before, s, values.last(), fuel);
    assert(o.emissions =~= seq![
        Emission { node: s as usize, value: values.last() },
        Emission { node: t as usize, value: Value::Bool(flag) },
    ]);
}

/// Where a node has a toggle as its only target, and the toggle has no
/// targets, the flag of the toggle after a sequence of values is its flag
/// before, flipped as often as there were values.
pub proof fn lemma_fired_into_toggle<F: Fn(&Value) -> Value, G: Fn(&Value, &Value) -> Value>(
    nodes: Seq<NodeModel<F, G>>,
    s: int,
    t: int,
    values: Seq<Value>,
    fuel: nat,
)
    requires
        fuel >= 1,
        nodes.len() <= usize::MAX,
        0 <= s < nodes.len(),
        0 <= t < nodes.len(),
        s != t,
        nodes[s].targets == seq![AnyEventConsumer { raw: t as usize }],
        nodes[t].targets.len() == 0,
        nodes[t].shape is Toggle,
    ensures
        fired(nodes, s, values, fuel) == nodes.update(
            t,
            nodes[t].with_shape(
                Shape::Toggle(
                    ToggleShape {
                        source: nodes[t].shape->Toggle_0.source,
                        status: nodes[t].shape->Toggle_0.status != (values.len() % 2 == 1),
                    },
                ),
            ),
        ),
    decreases values.len(),
{
    let source = nodes[t].shape->Toggle_0.source;
    let status = nodes[t].shape->Toggle_0.status;
    if values.len() == 0 {
        assert(nodes.update(t, nodes[t].with_shape(Shape::Toggle(ToggleShape { source, status }))) =~= nodes);
    } else {
        lemma_fired_into_toggle(nodes, s, t, values.drop_last(), fuel);
        let before = fired(nodes, s, values.drop_last(), fuel);
        let was = status != (values.drop_last().len() % 2 == 1);
        lemma_emit_to_one_target(before, s, values.last(), fuel);
        let flipped = before.update(
            t,
            before[t].with_shape(Shape::Toggle(ToggleShape { source, status: !was })),
        );
        lemma_emit_without_targets(flipped, t, Value::Bool(!was), (fuel - 1) as nat);
        assert(flipped =~= nodes.update(
            t,
            nodes[t].with_shape(Shape::Toggle(ToggleShape { source, status: !was })),
        ));
    }
}

// ---------------------------------------------------------------------------
// Hold
// ---------------------------------------------------------------------------

/// A source and a hold of it, added to any network: before the source has
/// fired, the current value of the hold is the default value of the type;
/// after the source has sent a sequence of values, it is the last of them.
pub proof fn law_hold_keeps_last_value<F: Fn(&Value) -> Value, G: Fn(&Value, &Value) -> Value>(
    nodes: Seq<NodeModel<F, G>>,
    label1: Seq<char>,
    label2: Seq<char>,
    value_type: ValueType,
    values: Seq<Value>,
    fuel: nat,
)
    requires
        fuel >= 1,
        nodes.len() + 2 <= usize::MAX,
    ensures
        ({
            let s = nodes.len() as int;
            let h = s + 1;
            let net = hold_wired(
                source_wired(nodes, label1, MessageType::Event, value_type),
                label2,
                Node { id: s as usize, output: MessageType::Event },
            );
            current_value_of(fired(net, s, values, fuel), h) == Some(
                last_or(values, value_type.spec_default_value()),
            )
        }),
{
    let s = nodes.len() as int;
    let h = s + 1;
    let source = Node { id: s as usize, output: MessageType::Event };
    let net = hold_wired(source_wired(nodes, label1, MessageType::Event, value_type), label2, source);
    assert(net[s].targets =~= seq![AnyEventConsumer { raw: h as usize }]);
    lemma_fired_into_hold(net, s, h, values, fuel);
}

// ---------------------------------------------------------------------------
// Sample
// ---------------------------------------------------------------------------

/// A source, a hold of it, a trigger and a sample of the hold at the
/// trigger, added to any network: when the trigger fires after the source
/// has sent a sequence of values, the sample sends the last of them, or the
/// default value of the type if the source has not fired. Nothing else
/// happens.
pub proof fn law_sample_sends_held_value<F: Fn(&Value) -> Value, G: Fn(&Value, &Value) -> Value>(
    nodes: Seq<NodeModel<F, G>>,
    labels: Seq<Seq<char>>,
    value_type: ValueType,
    trigger_type: ValueType,
    values: Seq<Value>,
    pulse: Value,
    fuel: nat,
)
    requires
        fuel >= 1,
        labels.len() == 4,
        nodes.len() + 4 <= usize::MAX,
    ensures
        ({
            let s = nodes.len() as int;
            let h = s + 1;
            let trigger = s + 2;
            let sample = s + 3;
            let net = sample_wired(
                source_wired(
                    hold_wired(
                        source_wired(nodes, labels[0], MessageType::Event, value_type),
                        labels[1],
                        Node { id: s as usize, output: MessageType::Event },
                    ),
                    labels[2],
                    MessageType::Event,
                    trigger_type,
                ),
                labels[3],
                Node { id: h as usize, output: MessageType::Behavior },
                Node { id: trigger as usize, output: MessageType::Event },
            );
            let o = emit_event(fired(net, s, values, fuel), trigger, pulse, fuel);
            &&& o.status is Settled
            &&& o.emissions == seq![
                Emission { node: trigger as usize, value: pulse },
                Emission {
                    node: sample as usize,
                    value: last_or(values, value_type.spec_default_value()),
                },
            ]
        }),
{
    let s = nodes.len() as int;
    let h = s + 1;
    let trigger = s + 2;
    let sample = s + 3;
    let net = sample_wired(
        source_wired(
            hold_wired(
                source_wired(nodes, labels[0], MessageType::Event, value_type),
                labels[1],
                Node { id: s as usize, output: MessageType::Event },
            ),
            labels[2],
            MessageType::Event,
            trigger_type,
        ),
        labels[3],
        Node { id: h as usize, output: MessageType::Behavior },
        Node { id: trigger as usize, output: MessageType::Event },
    );
    assert(net[s].targets =~= seq![AnyEventConsumer { raw: h as usize }]);
    assert(net[trigger].targets =~= seq![AnyEventConsumer { raw: sample as usize }]);
    assert(net[sample].targets =~= Seq::<AnyEventConsumer>::empty());
    lemma_fired_into_hold(net, s, h, values, fuel);
    let st = fired(net, s, values, fuel);
    let held = last_or(values, value_type.spec_default_value());
    assert(current_value_of(st, h) == Some(held));
    lemma_emit_to_one_target(st, trigger, pulse, fuel);
    lemma_emit_without_targets(st, sample, held, (fuel - 1) as nat);
    let o = emit_event(st, trigger, pulse, fuel);
    assert(o.emissions =~= seq![
        Emission { node: trigger as usize, value: pulse },
        Emission { node: sample as usize, value: held },
    ]);
}

// ---------------------------------------------------------------------------
// Gate
// ---------------------------------------------------------------------------

/// What a `Gate` does with a value that it receives: while its behavior is
/// `true` it sends the value on, so that the first notification that
/// follows is its own, with the value; while its behavior has another value
/// nothing is sent and nothing changes.
pub proof fn law_gate_passes_or_drops<F: Fn(&Value) -> Value, G: Fn(&Value, &Value) -> Value>(
    nodes: Seq<NodeModel<F, G>>,
    g: int,
    v: Value,
    fuel: nat,
)
    requires
        0 <= g < nodes.len(),
        nodes[g].shape is Gate,
        current_value_of(nodes, nodes[g].shape->Gate_0.source1.id as int) is Some,
    ensures
        current_value_of(nodes, nodes[g].shape->Gate_0.source1.id as int) == Some(Value::Bool(true)) ==> {
            &&& deliver(nodes, g, v, fuel).emissions.len() >= 1
            &&& deliver(nodes, g, v, fuel).emissions[0] == (Emission { node: g as usize, value: v })
        },
        current_value_of(nodes, nodes[g].shape->Gate_0.source1.id as int) != Some(Value::Bool(true)) ==> {
            &&& deliver(nodes, g, v, fuel).emissions.len() == 0
            &&& deliver(nodes, g, v, fuel).nodes == nodes
            &&& deliver(nodes, g, v, fuel).status is Settled
        },
{
}

/// One thing that happens to a `Gate` and its inputs: the behavior gets a
/// value, or the event input fires.
pub enum GateStep {
    Flag(bool),
    Fire(Value),
}

/// The value of the behavior after the steps, where it was `open` before.
pub open spec fn gate_state(steps: Seq<GateStep>, open: bool) -> bool
    decreases steps.len(),
{
    if steps.len() == 0 {
        open
    } else {
        match steps.last() {
            GateStep::Flag(b) => b,
            GateStep::Fire(_) => gate_state(steps.drop_last(), open),
        }
    }
}

/// The values that were fired while the behavior was `true`, in their
/// order.
pub open spec fn gate_passed(steps: Seq<GateStep>, open: bool) -> Seq<Value>
    decreases steps.len(),
{
    if steps.len() == 0 {
        Seq::empty()
    } else {
        match steps.last() {
            GateStep::Flag(_) => gate_passed(steps.drop_last(), open),
            GateStep::Fire(v) => if gate_state(steps.drop_last(), open) {
                gate_passed(steps.drop_last(), open).push(v)
            } else {
                gate_passed(steps.drop_last(), open)
            },
        }
    }
}

/// The network after the steps, and all that was sent during them: at
/// `Flag`, the node `flag` sends the value; at `Fire`, the node `e` sends the
/// value.
pub open spec fn gate_run<F: Fn(&Value) -> Value, G: Fn(&Value, &Value) -> Value>(
    nodes: Seq<NodeModel<F, G>>,
    flag: int,
    e: int,
    steps: Seq<GateStep>,
    fuel: nat,
) -> Outcome<F, G>
    decreases steps.len(),
{
    if steps.len() == 0 {
        Outcome { nodes, emissions: Seq::empty(), status: Status::Settled }
    } else {
        let before = gate_run(nodes, flag, e, steps.drop_last(), fuel);
        let o = match steps.last() {
            GateStep::Flag(b) => emit_event(before.nodes, flag, Value::Bool(b), fuel),
            GateStep::Fire(v) => emit_event(before.nodes, e, v, fuel),
        };
        Outcome { nodes: o.nodes, emissions: before.emissions + o.emissions, status: o.status }
    }
}

/// A source of flags, a hold of it, a source of events and a `Gate` of the
/// events by the hold, added to any network. Whatever the order in which
/// flags are set and events are fired, the `Gate` sends exactly the events
/// that were fired while the flag was `true`, in their order, and so as
/// many as there were such events. The flag is `false` at first.
pub proof fn law_gate_conserves_events<F: Fn(&Value) -> Value, G: Fn(&Value, &Value) -> Value>(
    nodes: Seq<NodeModel<F, G>>,
    labels: Seq<Seq<char>>,
    value_type: ValueType,
    steps: Seq<GateStep>,
    fuel: nat,
)
    requires
        fuel >= 1,
        labels.len() == 4,
        nodes.len() + 4 <= usize::MAX,
    ensures
        ({
            let flag = nodes.len() as int;
            let open = flag + 1;
            let e = flag + 2;
            let g = flag + 3;
            let net = gate_wired(
                source_wired(
                    hold_wired(
                        source_wired(nodes, labels[0], MessageType::Event, ValueType::Bool),
                        labels[1],
                        Node { id: flag as usize, output: MessageType::Event },
                    ),
                    labels[2],
                    MessageType::Event,
                    value_type,
                ),
                labels[3],
                Node { id: open as usize, output: MessageType::Behavior },
                Node { id: e as usize, output: MessageType::Event },
            );
            let o = gate_run(net, flag, e, steps, fuel);
            &&& o.status is Settled
            &&& sent_by(o.emissions, g) == gate_passed(steps, false)
            &&& sent_by(o.emissions, g).len() == gate_passed(steps, false).len()
        }),
{
    let flag = nodes.len() as int;
    let open = flag + 1;
    let e = flag + 2;
    let g = flag + 3;
    let net = gate_wired(
        source_wired(
            hold_wired(
                source_wired(nodes, labels[0], MessageType::Event, ValueType::Bool),
                labels[1],
                Node { id: flag as usize, output: MessageType::Event },
            ),
            labels[2],
            MessageType::Event,
            value_type,
        ),
        labels[3],
        Node { id: open as usize, output: MessageType::Behavior },
        Node { id: e as usize, output: MessageType::Event },
    );
    assert(net[flag].targets =~= seq![AnyEventConsumer { raw: open as usize }]);
    assert(net[e].targets =~= seq![AnyEventConsumer { raw: g as usize }]);
    assert(net[g].targets =~= Seq::<AnyEventConsumer>::empty());
    lemma_gate_run(net, flag, open, e, g, steps, fuel);
}

/// The state of the network with a `Gate` after the steps.
pub open spec fn gate_net_after<F: Fn(&Value) -> Value, G: Fn(&Value, &Value) -> Value>(
    net: Seq<NodeModel<F, G>>,
    open: int,
    steps: Seq<GateStep>,
) -> Seq<NodeModel<F, G>> {
    net.update(
        open,
        net[open].with_shape(
            Shape::Hold(
                HoldShape {
                    source: net[open].shape->Hold_0.source,
                    last_val: Value::Bool(gate_state(steps, false)),
                },
            ),
        ),
    )
}

/// The induction behind `law_gate_conserves_events`.
pub proof fn lemma_gate_run<F: Fn(&Value) -> Value, G: Fn(&Value, &Value) -> Value>(
    net: Seq<NodeModel<F, G>>,
    flag: int,
    open: int,
    e: int,
    g: int,
    steps: Seq<GateStep>,
    fuel: nat,
)
    requires
        fuel >= 1,
        net.len() <= usize::MAX,
        0 <= flag < net.len(),
        0 <= open < net.len(),
        0 <= e < net.len(),
        0 <= g < net.len(),
        flag != open && flag != e && flag != g && open != e && open != g && e != g,
        net[flag].targets == seq![AnyEventConsumer { raw: open as usize }],
        net[e].targets == seq![AnyEventConsumer { raw: g as usize }],
        net[g].targets.len() == 0,
        net[open].shape is Hold,
        net[open].output is Behavior,
        net[open].shape->Hold_0.last_val == Value::Bool(false),
        net[g].shape is Gate,
        net[g].shape->Gate_0.source1.id == open,
    ensures
        gate_run(net, flag, e, steps, fuel).status is Settled,
        gate_run(net, flag, e, steps, fuel).nodes == gate_net_after(net, open, steps),
        sent_by(gate_run(net, flag, e, steps, fuel).emissions, g) == gate_passed(steps, false),
    decreases steps.len(),
{
    let source = net[open].shape->Hold_0.source;
    if steps.len() == 0 {
        assert(gate_net_after(net, open, steps) =~= net);
    } else {
        lemma_gate_run(net, flag, open, e, g, steps.drop_last(), fuel);
        let before = gate_run(net, flag, e, steps.drop_last(), fuel);
        let was = gate_state(steps.drop_last(), false);
        assert(before.nodes == gate_net_after(net, open, steps.drop_last()));
        assert(current_value_of(before.nodes, open) == Some(Value::Bool(was)));
        match steps.last() {
            GateStep::Flag(b) => {
                lemma_emit_to_one_target(before.nodes, flag, Value::Bool(b), fuel);
                let o = emit_event(before.nodes, flag, Value::Bool(b), fuel);
                assert(o.nodes =~= gate_net_after(net, open, steps));
                let sent = seq![Emission { node: flag as usize, value: Value::Bool(b) }];
                assert(o.emissions =~= sent);
                lemma_sent_by_concat(before.emissions, sent, g);
                assert(sent.drop_last() =~= Seq::<Emission>::empty());
                assert(sent_by(sent.drop_last(), g) =~= Seq::<Value>::empty());
                assert(sent_by(sent, g) =~= Seq::<Value>::empty());
                assert(sent_by(before.emissions, g) + Seq::<Value>::empty() =~= sent_by(before.emissions, g));
            },
            GateStep::Fire(v) => {
                lemma_emit_to_one_target(before.nodes, e, v, fuel);
                let o = emit_event(before.nodes, e, v, fuel);
                if was {
                    lemma_emit_without_targets(before.nodes, g, v, (fuel - 1) as nat);
                    let sent = seq![
                        Emission { node: e as usize, value: v },
                        Emission { node: g as usize, value: v },
                    ];
                    assert(o.emissions =~= sent);
                    lemma_sent_by_pair(e, v, g, v, g);
                    lemma_sent_by_concat(before.emissions, sent, g);
                    assert(sent_by(before.emissions, g) + seq![v] =~= sent_by(before.emissions, g).push(v));
                } else {
                    let sent = seq![Emission { node: e as usize, value: v }];
                    assert(o.emissions =~= sent + Seq::<Emission>::empty());
                    assert(o.emissions =~= sent);
                    lemma_sent_by_concat(before.emissions, sent, g);
                    assert(sent.drop_last() =~= Seq::<Emission>::empty());
                    assert(sent_by(sent.drop_last(), g) =~= Seq::<Value>::empty());
                    assert(sent_by(sent, g) =~= Seq::<Value>::empty());
                    assert(sent_by(before.emissions, g) + Seq::<Value>::empty() =~= sent_by(
                        before.emissions,
                        g,
                    ));
                }
                assert(o.nodes =~= gate_net_after(net, open, steps));
            },
        }
    }
}

// ---------------------------------------------------------------------------
// Recursive
// ---------------------------------------------------------------------------

/// A recursive node that receives a value sends it on unchanged: the first
/// notification that follows is that of the recursive node, with the value.
pub proof fn law_recursive_passes_value_on<F: Fn(&Value) -> Value, G: Fn(&Value, &Value) -> Value>(
    nodes: Seq<NodeModel<F, G>>,
    r: int,
    v: Value,
    fuel: nat,
)
    requires
        0 <= r < nodes.len(),
        nodes[r].shape is Recursive,
    ensures
        deliver(nodes, r, v, fuel).emissions.len() >= 1,
        deliver(nodes, r, v, fuel).emissions[0] == (Emission { node: r as usize, value: v }),
{
}

/// A recursive node that gets an upstream node is shown under the
/// identifier of the upstream node from then on, and it is the last of the
/// targets of the upstream node if that produces events.
pub proof fn law_recursive_takes_display_id<F: Fn(&Value) -> Value, G: Fn(&Value, &Value) -> Value>(
    nodes: Seq<NodeModel<F, G>>,
    r: int,
    upstream: Node,
)
    requires
        nodes.len() <= usize::MAX,
        0 <= r < nodes.len(),
        (upstream.id as int) < nodes.len(),
        nodes[r].shape is Recursive,
    ensures
        with_upstream(nodes, r, upstream)[r].display_id == with_upstream(
            nodes,
            r,
            upstream,
        )[upstream.id as int].display_id,
        with_upstream(nodes, r, upstream)[r].shape == Shape::<F, G>::Recursive(
            RecursiveShape2 { source: Some(upstream) },
        ),
        upstream.output is Event && upstream.id != r ==> with_upstream(
            nodes,
            r,
            upstream,
        )[upstream.id as int].targets == nodes[upstream.id as int].targets.push(
            AnyEventConsumer { raw: r as usize },
        ),
{
}

/// A recursive node and a source that is made its upstream node, added to
/// any network: every event that the source fires is sent on by the
/// recursive node unchanged, nothing else happens, and the two nodes are
/// shown under one identifier.
pub proof fn law_recursive_relays<F: Fn(&Value) -> Value, G: Fn(&Value, &Value) -> Value>(
    nodes: Seq<NodeModel<F, G>>,
    label1: Seq<char>,
    label2: Seq<char>,
    value_type: ValueType,
    v: Value,
    fuel: nat,
)
    requires
        fuel >= 1,
        nodes.len() + 2 <= usize::MAX,
    ensures
        ({
            let r = nodes.len() as int;
            let u = r + 1;
            let net = with_upstream(
                source_wired(
                    recursive_wired(nodes, label1, MessageType::Event, value_type),
                    label2,
                    MessageType::Event,
                    value_type,
                ),
                r,
                Node { id: u as usize, output: MessageType::Event },
            );
            let o = emit_event(net, u, v, fuel);
            &&& net[r].display_id == net[u].display_id
            &&& o.status is Settled
            &&& o.nodes == net
            &&& o.emissions == seq![
                Emission { node: u as usize, value: v },
                Emission { node: r as usize, value: v },
            ]
        }),
{
    let r = nodes.len() as int;
    let u = r + 1;
    let net = with_upstream(
        source_wired(
            recursive_wired(nodes, label1, MessageType::Event, value_type),
            label2,
            MessageType::Event,
            value_type,
        ),
        r,
        Node { id: u as usize, output: MessageType::Event },
    );
    assert(net[u].targets =~= seq![AnyEventConsumer { raw: r as usize }]);
    assert(net[r].targets =~= Seq::<AnyEventConsumer>::empty());
    lemma_emit_to_one_target(net, u, v, fuel);
    lemma_emit_without_targets(net, r, v, (fuel - 1) as nat);
    let o = emit_event(net, u, v, fuel);
    assert(o.emissions =~= seq![
        Emission { node: u as usize, value: v },
        Emission { node: r as usize, value: v },
    ]);
}

// ---------------------------------------------------------------------------
// Lambda
// ---------------------------------------------------------------------------

/// A lambda that receives a value sends on what its function makes of the
/// value: the first notification that follows is that of the lambda, with
/// the result of the function.
pub proof fn law_lambda_applies_function<F: Fn(&Value) -> Value, G: Fn(&Value, &Value) -> Value>(
    nodes: Seq<NodeModel<F, G>>,
    l: int,
    v: Value,
    fuel: nat,
)
    requires
        0 <= l < nodes.len(),
        nodes[l].shape is Lambda,
    ensures
        deliver(nodes, l, v, fuel).emissions.len() >= 1,
        deliver(nodes, l, v, fuel).emissions[0] == (Emission {
            node: l as usize,
            value: nodes[l].shape->Lambda_0.func.spec_apply(v),
        }),
{
}

/// A lambda with two inputs that receives a value sends on what its
/// function makes of the value and of the current value of its behavior,
/// each at the place of its input.
pub proof fn law_lambda2_combines_with_behavior<F: Fn(&Value) -> Value, G: Fn(&Value, &Value) -> Value>(
    nodes: Seq<NodeModel<F, G>>,
    l: int,
    v: Value,
    fuel: nat,
)
    requires
        0 <= l < nodes.len(),
        nodes[l].shape is Lambda2,
        current_value_of(
            nodes,
            behavior_side(nodes[l].shape->Lambda2_0.source1, nodes[l].shape->Lambda2_0.source2).id as int,
        ) is Some,
    ensures
        deliver(nodes, l, v, fuel).emissions.len() >= 1,
        ({
            let s = nodes[l].shape->Lambda2_0;
            let x = current_value_of(nodes, behavior_side(s.source1, s.source2).id as int)->Some_0;
            deliver(nodes, l, v, fuel).emissions[0] == (Emission {
                node: l as usize,
                value: if s.source1.output is Behavior {
                    lambda2_result(s.func.raw, x, v)
                } else {
                    lambda2_result(s.func.raw, v, x)
                },
            })
        }),
{
}

// ---------------------------------------------------------------------------
// The depth of a propagation
// ---------------------------------------------------------------------------

/// The bound on the depth of a propagation changes nothing about a
/// propagation that settles within it: with any greater bound the same
/// notifications are sent and the network ends in the same state.
pub proof fn law_settled_within_any_greater_depth<F: Fn(&Value) -> Value, G: Fn(&Value, &Value) -> Value>(
    nodes: Seq<NodeModel<F, G>>,
    n: int,
    v: Value,
    fuel: nat,
    more: nat,
)
    requires
        fuel <= more,
        emit_event(nodes, n, v, fuel).status is Settled,
    ensures
        emit_event(nodes, n, v, more).status is Settled,
        emit_event(nodes, n, v, more).nodes == emit_event(nodes, n, v, fuel).nodes,
        emit_event(nodes, n, v, more).emissions == emit_event(nodes, n, v, fuel).emissions,
    decreases fuel, 1nat, 0nat,
{
    if 0 <= n < nodes.len() {
        lemma_dispatch_settled(nodes, nodes[n].targets, v, 0, fuel, more);
    }
}

/// What `law_settled_within_any_greater_depth` says, of a node that
/// receives a value.
pub proof fn lemma_deliver_settled<F: Fn(&Value) -> Value, G: Fn(&Value, &Value) -> Value>(
    nodes: Seq<NodeModel<F, G>>,
    t: int,
    v: Value,
    fuel: nat,
    more: nat,
)
    requires
        fuel <= more,
        deliver(nodes, t, v, fuel).status is Settled,
    ensures
        deliver(nodes, t, v, more).status is Settled,
        deliver(nodes, t, v, more).nodes == deliver(nodes, t, v, fuel).nodes,
        deliver(nodes, t, v, more).emissions == deliver(nodes, t, v, fuel).emissions,
    decreases fuel, 2nat, 0nat,
{
    if 0 <= t < nodes.len() {
        match nodes[t].shape {
            Shape::Source(_) => {},
            Shape::Merge(_) => {
                law_settled_within_any_greater_depth(nodes, t, v, fuel, more);
            },
            Shape::Toggle(s) => {
                let flipped = Shape::Toggle(ToggleShape { source: s.source, status: !s.status });
                law_settled_within_any_greater_depth(
                    nodes.update(t, nodes[t].with_shape(flipped)),
                    t,
                    Value::Bool(!s.status),
                    fuel,
                    more,
                );
            },
            Shape::Hold(_) => {},
            Shape::Recursive(_) => {
                law_settled_within_any_greater_depth(nodes, t, v, fuel, more);
            },
            Shape::Sample(s) => {
                match current_value_of(nodes, behavior_side(s.source1, s.source2).id as int) {
                    Some(x) => {
                        law_settled_within_any_greater_depth(nodes, t, x, fuel, more);
                    },
                    None => {},
                }
            },
            Shape::Gate(s) => {
                match current_value_of(nodes, s.source1.id as int) {
                    Some(x) => {
                        if x == Value::Bool(true) {
                            law_settled_within_any_greater_depth(nodes, t, v, fuel, more);
                        }
                    },
                    None => {},
                }
            },
            Shape::Lambda(s) => {
                law_settled_within_any_greater_depth(nodes, t, s.func.spec_apply(v), fuel, more);
            },
            Shape::Lambda2(s) => {
                match current_value_of(nodes, behavior_side(s.source1, s.source2).id as int) {
                    Some(x) => {
                        if s.source1.output is Behavior {
                            law_settled_within_any_greater_depth(
                                nodes,
                                t,
                                lambda2_result(s.func.raw, x, v),
                                fuel,
                                more,
                            );
                        } else {
                            law_settled_within_any_greater_depth(
                                nodes,
                                t,
                                lambda2_result(s.func.raw, v, x),
                                fuel,
                                more,
                            );
                        }
                    },
                    None => {},
                }
            },
        }
    }
}

/// What `law_settled_within_any_greater_depth` says, of the targets that
/// are notified one after the other.
pub proof fn lemma_dispatch_settled<F: Fn(&Value) -> Value, G: Fn(&Value, &Value) -> Value>(
    nodes: Seq<NodeModel<F, G>>,
    targets: Seq<AnyEventConsumer>,
    v: Value,
    from: int,
    fuel: nat,
    more: nat,
)
    requires
        fuel <= more,
        dispatch(nodes, targets, v, from, fuel).status is Settled,
    ensures
        dispatch(nodes, targets, v, from, more).status is Settled,
        dispatch(nodes, targets, v, from, more).nodes == dispatch(nodes, targets, v, from, fuel).nodes,
        dispatch(nodes, targets, v, from, more).emissions == dispatch(nodes, targets, v, from, fuel).emissions,
    decreases fuel, 0nat, targets.len() - from,
{
    if 0 <= from < targets.len() {
        let first = deliver(nodes, targets[from].raw as int, v, (fuel - 1) as nat);
        lemma_deliver_settled(nodes, targets[from].raw as int, v, (fuel - 1) as nat, (more - 1) as nat);
        lemma_dispatch_settled(first.nodes, targets, v, from + 1, fuel, more);
    }
}

// ---------------------------------------------------------------------------
// The wiring during a propagation
// ---------------------------------------------------------------------------

/// A propagation changes nothing about how the nodes are wired: the number
/// of nodes, their labels, identifiers, kinds and types, their inputs and
/// their targets stay as they are. Only what toggles and holds remember
/// changes.
pub proof fn law_propagation_keeps_wiring<F: Fn(&Value) -> Value, G: Fn(&Value, &Value) -> Value>(
    nodes: Seq<NodeModel<F, G>>,
    n: int,
    v: Value,
    fuel: nat,
)
    ensures
        same_wiring(nodes, emit_event(nodes, n, v, fuel).nodes),
    decreases fuel, 1nat, 0nat,
{
    if 0 <= n < nodes.len() {
        lemma_dispatch_keeps_wiring(nodes, nodes[n].targets, v, 0, fuel);
    }
}

/// What `law_propagation_keeps_wiring` says, of a node that receives a
/// value.
pub proof fn lemma_deliver_keeps_wiring<F: Fn(&Value) -> Value, G: Fn(&Value, &Value) -> Value>(
    nodes: Seq<NodeModel<F, G>>,
    t: int,
    v: Value,
    fuel: nat,
)
    ensures
        same_wiring(nodes, deliver(nodes, t, v, fuel).nodes),
    decreases fuel, 2nat, 0nat,
{
    if 0 <= t < nodes.len() {
        match nodes[t].shape {
            Shape::Source(_) => {},
            Shape::Merge(_) => {
                law_propagation_keeps_wiring(nodes, t, v, fuel);
            },
            Shape::Toggle(s) => {
                let flipped = nodes.update(
                    t,
                    nodes[t].with_shape(Shape::Toggle(ToggleShape { source: s.source, status: !s.status })),
                );
                lemma_memory_is_no_wiring(nodes, t, flipped);
                law_propagation_keeps_wiring(flipped, t, Value::Bool(!s.status), fuel);
                lemma_same_wiring_transitive(nodes, flipped, emit_event(flipped, t, Value::Bool(!s.status), fuel).nodes);
            },
            Shape::Hold(s) => {
                let stored = nodes.update(
                    t,
                    nodes[t].with_shape(Shape::Hold(HoldShape { source: s.source, last_val: v })),
                );
                lemma_memory_is_no_wiring(nodes, t, stored);
            },
            Shape::Recursive(_) => {
                law_propagation_keeps_wiring(nodes, t, v, fuel);
            },
            Shape::Sample(s) => {
                match current_value_of(nodes, behavior_side(s.source1, s.source2).id as int) {
                    Some(x) => {
                        law_propagation_keeps_wiring(nodes, t, x, fuel);
                    },
                    None => {},
                }
            },
            Shape::Gate(s) => {
                match current_value_of(nodes, s.source1.id as int) {
                    Some(x) => {
                        if x == Value::Bool(true) {
                            law_propagation_keeps_wiring(nodes, t, v, fuel);
                        }
                    },
                    None => {},
                }
            },
            Shape::Lambda(s) => {
                law_propagation_keeps_wiring(nodes, t, s.func.spec_apply(v), fuel);
            },
            Shape::Lambda2(s) => {
                match current_value_of(nodes, behavior_side(s.source1, s.source2).id as int) {
                    Some(x) => {
                        if s.source1.output is Behavior {
                            law_propagation_keeps_wiring(nodes, t, lambda2_result(s.func.raw, x, v), fuel);
                        } else {
                            law_propagation_keeps_wiring(nodes, t, lambda2_result(s.func.raw, v, x), fuel);
                        }
                    },
                    None => {},
                }
            },
        }
    }
}

/// What `law_propagation_keeps_wiring` says, of the targets that are
/// notified one after the other.
pub proof fn lemma_dispatch_keeps_wiring<F: Fn(&Value) -> Value, G: Fn(&Value, &Value) -> Value>(
    nodes: Seq<NodeModel<F, G>>,
    targets: Seq<AnyEventConsumer>,
    v: Value,
    from: int,
    fuel: nat,
)
    ensures
        same_wiring(nodes, dispatch(nodes, targets, v, from, fuel).nodes),
    decreases fuel, 0nat, targets.len() - from,
{
    if 0 <= from < targets.len() && fuel > 0 {
        let first = deliver(nodes, targets[from].raw as int, v, (fuel - 1) as nat);
        lemma_deliver_keeps_wiring(nodes, targets[from].raw as int, v, (fuel - 1) as nat);
        if first.status is Settled {
            lemma_dispatch_keeps_wiring(first.nodes, targets, v, from + 1, fuel);
            lemma_same_wiring_transitive(nodes, first.nodes, dispatch(first.nodes, targets, v, from + 1, fuel).nodes);
        }
    }
}

/// A network in which one toggle or hold remembers something else is wired
/// as before.
pub proof fn lemma_memory_is_no_wiring<F, G>(nodes: Seq<NodeModel<F, G>>, t: int, after: Seq<NodeModel<F, G>>)
    requires
        0 <= t < nodes.len(),
        after.len() == nodes.len(),
        forall|i: int| 0 <= i < nodes.len() && i != t ==> after[i] == nodes[i],
        after[t] == nodes[t].with_shape(after[t].shape),
        match (nodes[t].shape, after[t].shape) {
            (Shape::Toggle(a), Shape::Toggle(b)) => a.source == b.source,
            (Shape::Hold(a), Shape::Hold(b)) => a.source == b.source,
            _ => false,
        },
    ensures
        same_wiring(nodes, after),
{
    assert forall|i: int| 0 <= i < nodes.len() implies (#[trigger] after[i]).shape.spec_inputs()
        == nodes[i].shape.spec_inputs() by {
        if i == t {
            assert(after[i].shape.spec_inputs() =~= nodes[i].shape.spec_inputs());
        }
    }
}

// ---------------------------------------------------------------------------
// Networks without feedback
// ---------------------------------------------------------------------------

/// In a network without feedback a propagation never goes deeper than the
/// network has nodes: where the bound on the depth is at least the number
/// of nodes behind the node that sends, the bound is not reached.
pub proof fn law_feed_forward_stays_within_depth<F: Fn(&Value) -> Value, G: Fn(&Value, &Value) -> Value>(
    nodes: Seq<NodeModel<F, G>>,
    n: int,
    v: Value,
    fuel: nat,
)
    requires
        feed_forward(nodes),
        0 <= n < nodes.len(),
        fuel + n + 1 >= nodes.len(),
    ensures
        !(emit_event(nodes, n, v, fuel).status is DepthExceeded),
    decreases fuel, 1nat, 0nat,
{
    lemma_dispatch_stays_within_depth(nodes, n, nodes[n].targets, v, 0, fuel);
}

/// What `law_feed_forward_stays_within_depth` says, of a node that
/// receives a value.
pub proof fn lemma_deliver_stays_within_depth<F: Fn(&Value) -> Value, G: Fn(&Value, &Value) -> Value>(
    nodes: Seq<NodeModel<F, G>>,
    t: int,
    v: Value,
    fuel: nat,
)
    requires
        feed_forward(nodes),
        0 <= t < nodes.len(),
        fuel + t + 1 >= nodes.len(),
    ensures
        !(deliver(nodes, t, v, fuel).status is DepthExceeded),
    decreases fuel, 2nat, 0nat,
{
    match nodes[t].shape {
        Shape::Source(_) => {},
        Shape::Merge(_) => {
            law_feed_forward_stays_within_depth(nodes, t, v, fuel);
        },
        Shape::Toggle(s) => {
            let flipped = nodes.update(
                t,
                nodes[t].with_shape(Shape::Toggle(ToggleShape { source: s.source, status: !s.status })),
            );
            lemma_memory_is_no_wiring(nodes, t, flipped);
            lemma_wiring_keeps_feed_forward(nodes, flipped);
            law_feed_forward_stays_within_depth(flipped, t, Value::Bool(!s.status), fuel);
        },
        Shape::Hold(_) => {},
        Shape::Recursive(_) => {
            law_feed_forward_stays_within_depth(nodes, t, v, fuel);
        },
        Shape::Sample(s) => {
            match current_value_of(nodes, behavior_side(s.source1, s.source2).id as int) {
                Some(x) => {
                    law_feed_forward_stays_within_depth(nodes, t, x, fuel);
                },
                None => {},
            }
        },
        Shape::Gate(s) => {
            match current_value_of(nodes, s.source1.id as int) {
                Some(x) => {
                    if x == Value::Bool(true) {
                        law_feed_forward_stays_within_depth(nodes, t, v, fuel);
                    }
                },
                None => {},
            }
        },
        Shape::Lambda(s) => {
            law_feed_forward_stays_within_depth(nodes, t, s.func.spec_apply(v), fuel);
        },
        Shape::Lambda2(s) => {
            match current_value_of(nodes, behavior_side(s.source1, s.source2).id as int) {
                Some(x) => {
                    if s.source1.output is Behavior {
                        law_feed_forward_stays_within_depth(nodes, t, lambda2_result(s.func.raw, x, v), fuel);
                    } else {
                        law_feed_forward_stays_within_depth(nodes, t, lambda2_result(s.func.raw, v, x), fuel);
                    }
                },
                None => {},
            }
        },
    }
}

/// What `law_feed_forward_stays_within_depth` says, of the targets of the
/// node `n` that are notified one after the other.
pub proof fn lemma_dispatch_stays_within_depth<F: Fn(&Value) -> Value, G: Fn(&Value, &Value) -> Value>(
    nodes: Seq<NodeModel<F, G>>,
    n: int,
    targets: Seq<AnyEventConsumer>,
    v: Value,
    from: int,
    fuel: nat,
)
    requires
        feed_forward(nodes),
        0 <= n < nodes.len(),
        targets == nodes[n].targets,
        fuel + n + 1 >= nodes.len(),
    ensures
        !(dispatch(nodes, targets, v, from, fuel).status is DepthExceeded),
    decreases fuel, 0nat, targets.len() - from,
{
    if 0 <= from < targets.len() {
        let t = targets[from].raw as int;
        assert(n < nodes[n].targets[from].raw < nodes.len());
        let first = deliver(nodes, t, v, (fuel - 1) as nat);
        lemma_deliver_stays_within_depth(nodes, t, v, (fuel - 1) as nat);
        if first.status is Settled {
            lemma_deliver_keeps_wiring(nodes, t, v, (fuel - 1) as nat);
            lemma_wiring_keeps_feed_forward(nodes, first.nodes);
            lemma_dispatch_stays_within_depth(first.nodes, n, targets, v, from + 1, fuel);
        }
    }
}

/// A network that is wired as a network without feedback has no feedback.
pub proof fn lemma_wiring_keeps_feed_forward<F, G>(nodes: Seq<NodeModel<F, G>>, after: Seq<NodeModel<F, G>>)
    requires
        feed_forward(nodes),
        same_wiring(nodes, after),
    ensures
        feed_forward(after),
{
    assert forall|i: int, k: int| 0 <= i < after.len() && 0 <= k < after[i].targets.len() implies i < (
    #[trigger] after[i].targets[k]).raw < after.len() by {
        assert(after[i].targets == nodes[i].targets);
        assert(i < nodes[i].targets[k].raw < nodes.len());
    }
}

} // verus!
