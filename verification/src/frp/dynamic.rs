//! A node seen in both ways at once: as the stream of its events and as the
//! behavior that holds the value of the last of them.

use vstd::prelude::*;
use crate::frp::combinators::Gate;
use crate::frp::combinators::gate_error;
use crate::frp::combinators::gate_wired;
use crate::frp::combinators::Hold;
use crate::frp::combinators::hold_wired;
use crate::frp::combinators::Lambda2;
use crate::frp::combinators::lambda2_error;
use crate::frp::combinators::lambda2_wired;
use crate::frp::combinators::Lambda;
use crate::frp::combinators::lambda_wired;
use crate::frp::combinators::lambda_wired_with;
use crate::frp::combinators::listener_error;
use crate::frp::combinators::Merge;
use crate::frp::combinators::merge_error;
use crate::frp::combinators::merge_wired;
use crate::frp::combinators::Sample;
use crate::frp::combinators::sample_error;
use crate::frp::combinators::sample_wired;
use crate::frp::combinators::Source;
use crate::frp::combinators::source_wired;
use crate::frp::combinators::Toggle;
use crate::frp::combinators::toggle_wired;
use crate::frp::message::MessageType;
use crate::frp::message::Value;
use crate::frp::message::ValueType;
use crate::frp::model::feed_forward;
use crate::frp::model::handle_ok;
use crate::frp::network::Network;
use crate::frp::node::BehaviorDynNode;
use crate::frp::node::EventDynNode;
use crate::frp::node::lambda1_is_pure;
use crate::frp::node::Lambda1Func;
use crate::frp::node::lambda2_is_pure;
use crate::frp::node::Node;
use crate::frp::node::NodeModel;
use crate::frp::typing::lambda1_typed;
use crate::frp::typing::lambda2_typed;
use crate::frp::typing::lemma_display_id_typed;
use crate::frp::typing::well_typed;
use crate::frp::wiring::lemma_display_id_feed_forward;
use crate::frp::wiring::lemma_display_id_well_formed;
use crate::frp::wiring::WiringError;

verus! {

/// An event stream together with the behavior that holds its last value.
#[derive(Clone, Copy, Debug, PartialEq, Eq, Structural)]
pub struct Dynamic {
    pub event: EventDynNode,
    pub behavior: BehaviorDynNode,
}

/// The network after the events of the node `event` got a hold: the hold
/// has the label of the node and is shown under its display identifier.
pub open spec fn dynamic_wired<F, G>(nodes: Seq<NodeModel<F, G>>, event: Node) -> Seq<NodeModel<F, G>> {
    let held = hold_wired(nodes, nodes[event.id as int].label, event);
    held.update(
        nodes.len() as int,
        held[nodes.len() as int].with_display_id(held[event.id as int].display_id),
    )
}

/// The pair of the node `id` and the hold that was added behind it.
pub open spec fn dynamic_at<F, G>(nodes: Seq<NodeModel<F, G>>, id: int) -> Dynamic {
    Dynamic {
        event: EventDynNode { id: id as usize },
        behavior: BehaviorDynNode { id: nodes.len() as usize },
    }
}

impl Dynamic {
    /// Puts an event stream and a behavior side by side.
    pub fn new(event: EventDynNode, behavior: BehaviorDynNode) -> (r: Self)
        ensures
            r.event == event,
            r.behavior == behavior,
    {
        Dynamic { event, behavior }
    }

    /// Gives the events of a node a hold, and returns the two together. The
    /// node has to produce events.
    pub fn from_event<F: Fn(&Value) -> Value, G: Fn(&Value, &Value) -> Value>(
        net: &mut Network<F, G>,
        event: &Node,
    ) -> (r: Result<Self, WiringError>)
        requires
            old(net).wf(),
        ensures
            final(net).wf(),
            final(net).spec_depth_limit() == old(net).spec_depth_limit(),
            feed_forward(old(net)@) ==> feed_forward(final(net)@),
            well_typed(old(net)@) ==> well_typed(final(net)@),
            match listener_error(old(net)@, *event) {
                Some(e) => r == Err::<Self, WiringError>(e) && final(net)@ == old(net)@,
                None => r == Ok::<Self, WiringError>(dynamic_at(old(net)@, event.id as int)) && final(net)@
                    == dynamic_wired(old(net)@, *event),
            },
    {
        if !net.knows(event) {
            return Err(WiringError::UnknownNode);
        }
        let label = net.label(event.id);
        match Hold::new_named(net, label.as_str(), event) {
            Err(e) => Err(e),
            Ok(hold) => {
                let display_id = net.display_id(event.id);
                let ghost held = net@;
                net.set_display_id(hold.node.id, display_id);
                proof {
                    old(net).lemma_len_bounded();
                    lemma_display_id_well_formed(held, hold.node.id as int, display_id);
                    if feed_forward(held) {
                        lemma_display_id_feed_forward(held, hold.node.id as int, display_id);
                    }
                    if well_typed(held) {
                        lemma_display_id_typed(held, hold.node.id as int, display_id);
                    }
                    assert(label@ == old(net)@[event.id as int].label);
                    assert(held == hold_wired(old(net)@, label@, *event));
                    assert(net@ =~= dynamic_wired(old(net)@, *event));
                }
                Ok(Dynamic { event: EventDynNode { id: event.id }, behavior: BehaviorDynNode { id: hold.node.id } })
            },
        }
    }

    /// A new source of events, with its hold.
    pub fn source<F: Fn(&Value) -> Value, G: Fn(&Value, &Value) -> Value>(
        net: &mut Network<F, G>,
        label: &str,
        value_type: ValueType,
    ) -> (r: Self)
        requires
            old(net).wf(),
        ensures
            final(net).wf(),
            final(net).spec_depth_limit() == old(net).spec_depth_limit(),
            feed_forward(old(net)@) ==> feed_forward(final(net)@),
            well_typed(old(net)@) ==> well_typed(final(net)@),
            r == dynamic_at(source_wired(old(net)@, label@, MessageType::Event, value_type), old(net)@.len() as int),
            final(net)@ == dynamic_wired(
                source_wired(old(net)@, label@, MessageType::Event, value_type),
                Node { id: old(net)@.len() as usize, output: MessageType::Event },
            ),
    {
        let source = Source::new_named(net, label, MessageType::Event, value_type);
        proof {
            net.lemma_len_bounded();
        }
        Dynamic::from_event(net, &source.node).unwrap()
    }

    /// The events of this stream and of another, merged.
    pub fn merge<F: Fn(&Value) -> Value, G: Fn(&Value, &Value) -> Value>(
        &self,
        net: &mut Network<F, G>,
        label: &str,
        that: &Dynamic,
    ) -> (r: Result<Self, WiringError>)
        requires
            old(net).wf(),
        ensures
            final(net).wf(),
            final(net).spec_depth_limit() == old(net).spec_depth_limit(),
            feed_forward(old(net)@) ==> feed_forward(final(net)@),
            well_typed(old(net)@) ==> well_typed(final(net)@),
            match merge_error(old(net)@, self.event.node(), that.event.node()) {
                Some(e) => r == Err::<Self, WiringError>(e) && final(net)@ == old(net)@,
                None => {
                    let merged = merge_wired(old(net)@, label@, self.event.node(), that.event.node());
                    &&& r == Ok::<Self, WiringError>(dynamic_at(merged, old(net)@.len() as int))
                    &&& final(net)@ == dynamic_wired(
                        merged,
                        Node { id: old(net)@.len() as usize, output: MessageType::Event },
                    )
                },
            },
    {
        match Merge::new_named(net, label, &self.event.node(), &that.event.node()) {
            Err(e) => Err(e),
            Ok(node) => {
                proof {
                    net.lemma_len_bounded();
                }
                Dynamic::from_event(net, &node.node)
            },
        }
    }

    /// A flag that flips with every event of this stream.
    pub fn toggle<F: Fn(&Value) -> Value, G: Fn(&Value, &Value) -> Value>(
        &self,
        net: &mut Network<F, G>,
        label: &str,
    ) -> (r: Result<Self, WiringError>)
        requires
            old(net).wf(),
        ensures
            final(net).wf(),
            final(net).spec_depth_limit() == old(net).spec_depth_limit(),
            feed_forward(old(net)@) ==> feed_forward(final(net)@),
            well_typed(old(net)@) ==> well_typed(final(net)@),
            match listener_error(old(net)@, self.event.node()) {
                Some(e) => r == Err::<Self, WiringError>(e) && final(net)@ == old(net)@,
                None => {
                    let toggled = toggle_wired(old(net)@, label@, self.event.node());
                    &&& r == Ok::<Self, WiringError>(dynamic_at(toggled, old(net)@.len() as int))
                    &&& final(net)@ == dynamic_wired(
                        toggled,
                        Node { id: old(net)@.len() as usize, output: MessageType::Event },
                    )
                },
            },
    {
        match Toggle::new_named(net, label, &self.event.node()) {
            Err(e) => Err(e),
            Ok(node) => {
                proof {
                    net.lemma_len_bounded();
                }
                Dynamic::from_event(net, &node.node)
            },
        }
    }

    /// The events of this stream that happen while the behavior of `that`
    /// is `true`.
    pub fn gate<F: Fn(&Value) -> Value, G: Fn(&Value, &Value) -> Value>(
        &self,
        net: &mut Network<F, G>,
        label: &str,
        that: &Dynamic,
    ) -> (r: Result<Self, WiringError>)
        requires
            old(net).wf(),
        ensures
            final(net).wf(),
            final(net).spec_depth_limit() == old(net).spec_depth_limit(),
            feed_forward(old(net)@) ==> feed_forward(final(net)@),
            well_typed(old(net)@) ==> well_typed(final(net)@),
            match gate_error(old(net)@, that.behavior.node(), self.event.node()) {
                Some(e) => r == Err::<Self, WiringError>(e) && final(net)@ == old(net)@,
                None => {
                    let gated = gate_wired(old(net)@, label@, that.behavior.node(), self.event.node());
                    &&& r == Ok::<Self, WiringError>(dynamic_at(gated, old(net)@.len() as int))
                    &&& final(net)@ == dynamic_wired(
                        gated,
                        Node { id: old(net)@.len() as usize, output: MessageType::Event },
                    )
                },
            },
    {
        match Gate::new_named(net, label, &that.behavior.node(), &self.event.node()) {
            Err(e) => Err(e),
            Ok(node) => {
                proof {
                    net.lemma_len_bounded();
                }
                Dynamic::from_event(net, &node.node)
            },
        }
    }

    /// The value of this behavior at every event of `that`.
    pub fn sample<F: Fn(&Value) -> Value, G: Fn(&Value, &Value) -> Value>(
        &self,
        net: &mut Network<F, G>,
        label: &str,
        that: &Dynamic,
    ) -> (r: Result<Self, WiringError>)
        requires
            old(net).wf(),
        ensures
            final(net).wf(),
            final(net).spec_depth_limit() == old(net).spec_depth_limit(),
            feed_forward(old(net)@) ==> feed_forward(final(net)@),
            well_typed(old(net)@) ==> well_typed(final(net)@),
            match sample_error(old(net)@, self.behavior.node(), that.event.node()) {
                Some(e) => r == Err::<Self, WiringError>(e) && final(net)@ == old(net)@,
                None => {
                    let sampled = sample_wired(old(net)@, label@, self.behavior.node(), that.event.node());
                    &&& r == Ok::<Self, WiringError>(dynamic_at(sampled, old(net)@.len() as int))
                    &&& final(net)@ == dynamic_wired(
                        sampled,
                        Node { id: old(net)@.len() as usize, output: MessageType::Event },
                    )
                },
            },
    {
        match Sample::new_named(net, label, &self.behavior.node(), &that.event.node()) {
            Err(e) => Err(e),
            Ok(node) => {
                proof {
                    net.lemma_len_bounded();
                }
                Dynamic::from_event(net, &node.node)
            },
        }
    }

    /// The events of this stream, each transformed by `f`. `value_type` is
    /// the type of the results of `f`.
    pub fn map<F: Fn(&Value) -> Value, G: Fn(&Value, &Value) -> Value>(
        &self,
        net: &mut Network<F, G>,
        label: &str,
        value_type: ValueType,
        f: F,
    ) -> (r: Result<Self, WiringError>)
        requires
            old(net).wf(),
            lambda1_is_pure(f),
        ensures
            final(net).wf(),
            final(net).spec_depth_limit() == old(net).spec_depth_limit(),
            feed_forward(old(net)@) ==> feed_forward(final(net)@),
            well_typed(old(net)@) && (handle_ok(old(net)@, self.event.node()) ==> lambda1_typed(
                f,
                old(net)@[self.event.id as int].value_type,
                value_type,
            )) ==> well_typed(final(net)@),
            if handle_ok(old(net)@, self.event.node()) {
                let mapped = lambda_wired(old(net)@, label@, self.event.node(), value_type, f);
                &&& r == Ok::<Self, WiringError>(dynamic_at(mapped, old(net)@.len() as int))
                &&& final(net)@ == dynamic_wired(
                    mapped,
                    Node { id: old(net)@.len() as usize, output: MessageType::Event },
                )
            } else {
                r == Err::<Self, WiringError>(WiringError::UnknownNode) && final(net)@ == old(net)@
            },
    {
        match Lambda::new_named(net, label, &self.event.node(), value_type, f) {
            Err(e) => Err(e),
            Ok(node) => {
                proof {
                    net.lemma_len_bounded();
                }
                Dynamic::from_event(net, &node.node)
            },
        }
    }

    /// A stream that sends `value` at every event of this stream.
    pub fn constant<F: Fn(&Value) -> Value, G: Fn(&Value, &Value) -> Value>(
        &self,
        net: &mut Network<F, G>,
        label: &str,
        value: Value,
    ) -> (r: Result<Self, WiringError>)
        requires
            old(net).wf(),
        ensures
            final(net).wf(),
            final(net).spec_depth_limit() == old(net).spec_depth_limit(),
            feed_forward(old(net)@) ==> feed_forward(final(net)@),
            well_typed(old(net)@) ==> well_typed(final(net)@),
            if handle_ok(old(net)@, self.event.node()) {
                let mapped = lambda_wired_with(
                    old(net)@,
                    label@,
                    self.event.node(),
                    value.spec_value_type(),
                    Lambda1Func::Constant(value),
                );
                &&& r == Ok::<Self, WiringError>(dynamic_at(mapped, old(net)@.len() as int))
                &&& final(net)@ == dynamic_wired(
                    mapped,
                    Node { id: old(net)@.len() as usize, output: MessageType::Event },
                )
            } else {
                r == Err::<Self, WiringError>(WiringError::UnknownNode) && final(net)@ == old(net)@
            },
    {
        match Lambda::constant(net, label, &self.event.node(), value) {
            Err(e) => Err(e),
            Ok(node) => {
                proof {
                    net.lemma_len_bounded();
                }
                Dynamic::from_event(net, &node.node)
            },
        }
    }

    /// The events of this stream, each combined by `f` with the value that
    /// the behavior of `that` has when the event happens. `value_type` is the
    /// type of the results of `f`.
    pub fn map2<F: Fn(&Value) -> Value, G: Fn(&Value, &Value) -> Value>(
        &self,
        net: &mut Network<F, G>,
        label: &str,
        that: &Dynamic,
        value_type: ValueType,
        f: G,
    ) -> (r: Result<Self, WiringError>)
        requires
            old(net).wf(),
            lambda2_is_pure(f),
        ensures
            final(net).wf(),
            final(net).spec_depth_limit() == old(net).spec_depth_limit(),
            feed_forward(old(net)@) ==> feed_forward(final(net)@),
            well_typed(old(net)@) && (handle_ok(old(net)@, self.event.node()) && handle_ok(
                old(net)@,
                that.behavior.node(),
            ) ==> lambda2_typed(
                f,
                old(net)@[self.event.id as int].value_type,
                old(net)@[that.behavior.id as int].value_type,
                value_type,
            )) ==> well_typed(final(net)@),
            match lambda2_error(old(net)@, self.event.node(), that.behavior.node()) {
                Some(e) => r == Err::<Self, WiringError>(e) && final(net)@ == old(net)@,
                None => {
                    let mapped = lambda2_wired(
                        old(net)@,
                        label@,
                        self.event.node(),
                        that.behavior.node(),
                        value_type,
                        f,
                    );
                    &&& r == Ok::<Self, WiringError>(dynamic_at(mapped, old(net)@.len() as int))
                    &&& final(net)@ == dynamic_wired(
                        mapped,
                        Node { id: old(net)@.len() as usize, output: MessageType::Event },
                    )
                },
            },
    {
        match Lambda2::new_named(net, label, &self.event.node(), &that.behavior.node(), value_type, f) {
            Err(e) => Err(e),
            Ok(node) => {
                proof {
                    net.lemma_len_bounded();
                }
                Dynamic::from_event(net, &node.node)
            },
        }
    }
}

} // verus!
