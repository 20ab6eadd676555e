//! The network: the store of all nodes, and the propagation of events
//! through them.

use vstd::prelude::*;
use crate::frp::message::MessageType;
use crate::frp::message::Value;
use crate::frp::message::ValueType;
use crate::frp::model::current_value_of;
use crate::frp::model::current_value_within;
use crate::frp::model::deliver;
use crate::frp::model::dispatch;
use crate::frp::model::Emission;
use crate::frp::model::emit_event;
use crate::frp::model::feed_forward;
use crate::frp::model::fully_wired;
use crate::frp::model::handle_ok;
use crate::frp::model::node_ok;
use crate::frp::model::Status;
use crate::frp::model::well_formed;
use crate::frp::node::AnyEventConsumer;
use crate::frp::node::AnyNode;
use crate::frp::node::HoldShape;
use crate::frp::node::Node;
use crate::frp::node::NodeModel;
use crate::frp::node::NodeWrapperTemplateData;
use crate::frp::node::RecursiveShape2;
use crate::frp::node::Shape;
use crate::frp::node::ToggleShape;
use crate::frp::typing::emissions_typed;
use crate::frp::typing::expected_type;
use crate::frp::typing::law_propagation_is_typed;
use crate::frp::typing::lemma_deliver_typed;
use crate::frp::typing::well_typed;

verus! {

/// The store of all nodes of one reactive network. A node is known by its
/// position in the store. The network bounds how deep nested notifications
/// may go during one propagation.
pub struct Network<F, G> {
    nodes: Vec<NodeWrapperTemplateData<F, G>>,
    depth_limit: usize,
}

/// The notifications that were sent during one propagation, in the order in
/// which they were sent, and how the propagation ended.
pub struct Propagation {
    pub emissions: Vec<Emission>,
    pub status: Status,
}

/// Two states of a network that differ at most in what the nodes remember:
/// the flag of a toggle and the value of a hold.
pub open spec fn same_wiring<F, G>(a: Seq<NodeModel<F, G>>, b: Seq<NodeModel<F, G>>) -> bool {
    &&& a.len() == b.len()
    &&& forall|i: int|
        0 <= i < a.len() ==> {
            &&& (#[trigger] b[i]).targets == a[i].targets
            &&& b[i].output == a[i].output
            &&& b[i].value_type == a[i].value_type
            &&& b[i].display_id == a[i].display_id
            &&& b[i].label == a[i].label
            &&& b[i].shape.spec_inputs() == a[i].shape.spec_inputs()
        }
}

/// What a node does with a value that it receives.
enum Step {
    Nothing,
    Emit(Value),
    Fault,
    Flip(ToggleShape),
    Store(HoldShape),
}

impl<F, G> View for Network<F, G> {
    type V = Seq<NodeModel<F, G>>;

    closed spec fn view(&self) -> Seq<NodeModel<F, G>> {
        Seq::new(self.nodes.len() as nat, |i: int| self.nodes[i]@)
    }
}

impl<F: Fn(&Value) -> Value, G: Fn(&Value, &Value) -> Value> Network<F, G> {
    /// How deep nested notifications may go during one propagation.
    pub closed spec fn spec_depth_limit(&self) -> usize {
        self.depth_limit
    }

    /// Every record of the network is consistent with the rest of it.
    pub open spec fn wf(&self) -> bool {
        well_formed(self@)
    }

    /// A network without nodes.
    pub fn new(depth_limit: usize) -> (r: Self)
        ensures
            r@ == Seq::<NodeModel<F, G>>::empty(),
            r.spec_depth_limit() == depth_limit,
            r.wf(),
            feed_forward(r@),
            well_typed(r@),
    {
        let r = Network { nodes: Vec::new(), depth_limit };
        assert(r@ =~= Seq::<NodeModel<F, G>>::empty());
        r
    }

    /// A network has no more nodes than can be counted.
    pub proof fn lemma_len_bounded(&self)
        ensures
            self@.len() <= usize::MAX,
    {
    }

    /// The number of nodes.
    pub fn len(&self) -> (r: usize)
        ensures
            r == self@.len(),
    {
        self.nodes.len()
    }

    /// How deep nested notifications may go during one propagation.
    pub fn depth_limit(&self) -> (r: usize)
        ensures
            r == self.spec_depth_limit(),
    {
        self.depth_limit
    }

    /// Adds a record at the end of the store and returns its position.
    pub fn add_node(&mut self, record: NodeWrapperTemplateData<F, G>) -> (id: usize)
        ensures
            id == old(self)@.len(),
            final(self)@ == old(self)@.push(record@),
            final(self).spec_depth_limit() == old(self).spec_depth_limit(),
    {
        let id = self.nodes.len();
        self.nodes.push(record);
        assert(self@ =~= old(self)@.push(record@));
        id
    }

    /// Sets the identifier under which a graph shows the node `id`.
    pub fn set_display_id(&mut self, id: usize, display_id: usize)
        requires
            id < old(self)@.len(),
        ensures
            final(self)@ == old(self)@.update(id as int, old(self)@[id as int].with_display_id(display_id)),
            final(self).spec_depth_limit() == old(self).spec_depth_limit(),
    {
        self.nodes[id].display_id = display_id;
        assert(self@ =~= old(self)@.update(id as int, old(self)@[id as int].with_display_id(display_id)));
    }

    /// Registers `target` as the last of the targets of the node `id`.
    pub fn add_event_target(&mut self, id: usize, target: AnyEventConsumer)
        requires
            id < old(self)@.len(),
        ensures
            final(self)@ == old(self)@.update(id as int, old(self)@[id as int].with_target(target)),
            final(self).spec_depth_limit() == old(self).spec_depth_limit(),
    {
        self.nodes[id].targets.push(target);
        assert(self@ =~= old(self)@.update(id as int, old(self)@[id as int].with_target(target)));
    }

    /// The identifier under which a graph shows the node `id`.
    pub fn display_id(&self, id: usize) -> (r: usize)
        requires
            id < self@.len(),
        ensures
            r == self@[id as int].display_id,
    {
        self.nodes[id].display_id
    }

    /// The kind of message that the node `id` produces.
    pub fn output_type(&self, id: usize) -> (r: MessageType)
        requires
            id < self@.len(),
        ensures
            r == self@[id as int].output,
    {
        self.nodes[id].output
    }

    /// The type of the values that the node `id` produces.
    pub fn value_type(&self, id: usize) -> (r: ValueType)
        requires
            id < self@.len(),
        ensures
            r == self@[id as int].value_type,
    {
        self.nodes[id].value_type
    }

    /// The label of the node `id`.
    pub fn label(&self, id: usize) -> (r: String)
        requires
            id < self@.len(),
        ensures
            r@ == self@[id as int].label,
    {
        self.nodes[id].label.clone()
    }

    /// The current value of the node `id`, if it has one.
    pub fn current_value(&self, id: usize) -> (r: Option<Value>)
        ensures
            r == current_value_of(self@, id as int),
    {
        let mut cur: usize = id;
        let mut fuel: usize = self.nodes.len();
        loop
            invariant
                fuel <= self.nodes.len(),
                current_value_of(self@, id as int) == current_value_within(self@, cur as int, fuel as nat),
            decreases fuel,
        {
            if cur >= self.nodes.len() {
                return None;
            }
            match self.nodes[cur].output {
                MessageType::Event => {
                    return None;
                },
                MessageType::Behavior => {},
            }
            match &self.nodes[cur].shape {
                Shape::Source(s) => {
                    return Some(s.storage);
                },
                Shape::Hold(s) => {
                    return Some(s.last_val);
                },
                Shape::Recursive(s) => match s.source {
                    Some(n) => {
                        if fuel == 0 {
                            return None;
                        }
                        cur = n.id;
                        fuel = fuel - 1;
                    },
                    None => {
                        return None;
                    },
                },
                _ => {
                    return None;
                },
            }
        }
    }

    /// Whether the handle names a node of this network of the kind that the
    /// handle claims.
    pub fn knows(&self, h: &Node) -> (r: bool)
        ensures
            r == handle_ok(self@, *h),
    {
        if h.id < self.nodes.len() {
            match (self.nodes[h.id].output, h.output) {
                (MessageType::Event, MessageType::Event) => true,
                (MessageType::Behavior, MessageType::Behavior) => true,
                _ => false,
            }
        } else {
            false
        }
    }

    /// The nodes that the node `id` reads from, in the order of the fields of
    /// its shape.
    pub fn inputs(&self, id: usize) -> (r: Vec<AnyNode>)
        requires
            id < self@.len(),
            self@[id as int].shape matches Shape::Recursive(s) ==> s.source is Some,
        ensures
            r@.len() == self@[id as int].shape.spec_inputs().len(),
            forall|k: int| 0 <= k < r@.len() ==> (#[trigger] r@[k]).id == self@[id as int].shape.spec_inputs()[k].id,
    {
        let mut r: Vec<AnyNode> = Vec::new();
        match &self.nodes[id].shape {
            Shape::Source(_) => {},
            Shape::Merge(s) => {
                r.push(AnyNode::new(s.source1.id));
                r.push(AnyNode::new(s.source2.id));
            },
            Shape::Toggle(s) => {
                r.push(AnyNode::new(s.source.id));
            },
            Shape::Hold(s) => {
                r.push(AnyNode::new(s.source.id));
            },
            Shape::Recursive(s) => match s.source {
                Some(n) => {
                    r.push(AnyNode::new(n.id));
                },
                None => {},
            },
            Shape::Sample(s) => {
                r.push(AnyNode::new(s.source1.id));
                r.push(AnyNode::new(s.source2.id));
            },
            Shape::Gate(s) => {
                r.push(AnyNode::new(s.source1.id));
                r.push(AnyNode::new(s.source2.id));
            },
            Shape::Lambda(s) => {
                r.push(AnyNode::new(s.source.id));
            },
            Shape::Lambda2(s) => {
                r.push(AnyNode::new(s.source1.id));
                r.push(AnyNode::new(s.source2.id));
            },
        }
        r
    }

    /// Whether every recursive node of the network has its upstream node.
    pub fn is_fully_wired(&self) -> (r: bool)
        ensures
            r == fully_wired(self@),
    {
        let mut i: usize = 0;
        while i < self.nodes.len()
            invariant
                i <= self.nodes.len(),
                forall|j: int|
                    0 <= j < i ==> ((#[trigger] self@[j]).shape matches Shape::Recursive(s) ==> s.source is Some),
            decreases self.nodes.len() - i,
        {
            match &self.nodes[i].shape {
                Shape::Recursive(s) => {
                    if s.source.is_none() {
                        assert(self@[i as int].shape matches Shape::Recursive(s) && s.source is None);
                        return false;
                    }
                },
                _ => {},
            }
            i = i + 1;
        }
        true
    }

    /// The name of the kind of the node `id`, as a graph shows it.
    pub fn kind_name(&self, id: usize) -> (r: String)
        requires
            id < self@.len(),
        ensures
            r@ == self@[id as int].shape.spec_kind_name(),
    {
        match &self.nodes[id].shape {
            Shape::Source(_) => String::from_str("Source"),
            Shape::Merge(_) => String::from_str("Merge"),
            Shape::Toggle(_) => String::from_str("Toggle"),
            Shape::Hold(_) => String::from_str("Hold"),
            Shape::Recursive(_) => String::from_str("Recursive"),
            Shape::Sample(_) => String::from_str("Sample"),
            Shape::Gate(_) => String::from_str("Gate"),
            Shape::Lambda(_) => String::from_str("Lambda"),
            Shape::Lambda2(_) => String::from_str("Lambda2"),
        }
    }

    /// The upstream node of the recursive node `id`, if `id` is a recursive
    /// node that was initialized.
    pub fn recursive_source(&self, id: usize) -> (r: Option<Node>)
        requires
            id < self@.len(),
        ensures
            r == (match self@[id as int].shape {
                Shape::Recursive(s) => s.source,
                _ => None,
            }),
    {
        match &self.nodes[id].shape {
            Shape::Recursive(s) => s.source,
            _ => None,
        }
    }

    /// Whether the node `id` is a recursive node.
    pub fn is_recursive(&self, id: usize) -> (r: bool)
        requires
            id < self@.len(),
        ensures
            r == (self@[id as int].shape is Recursive),
    {
        match &self.nodes[id].shape {
            Shape::Recursive(_) => true,
            _ => false,
        }
    }

    /// Fills the empty source of the recursive node `id`.
    pub fn set_recursive_source(&mut self, id: usize, source: Node)
        requires
            id < old(self)@.len(),
            old(self)@[id as int].shape is Recursive,
        ensures
            final(self)@ == old(self)@.update(
                id as int,
                old(self)@[id as int].with_shape(Shape::Recursive(RecursiveShape2 { source: Some(source) })),
            ),
            final(self).spec_depth_limit() == old(self).spec_depth_limit(),
    {
        self.nodes[id].shape = Shape::Recursive(RecursiveShape2 { source: Some(source) });
        assert(self@ =~= old(self)@.update(
            id as int,
            old(self)@[id as int].with_shape(Shape::Recursive(RecursiveShape2 { source: Some(source) })),
        ));
    }

    /// The node `id` sends the value `value`. Every node that is reached
    /// reacts before this returns; the notifications that were sent come back
    /// in the order in which they were sent.
    pub fn propagate(&mut self, id: usize, value: Value) -> (r: Propagation)
        requires
            old(self).wf(),
            id < old(self)@.len(),
        ensures
            final(self).wf(),
            same_wiring(old(self)@, final(self)@),
            final(self).spec_depth_limit() == old(self).spec_depth_limit(),
            final(self)@ == emit_event(old(self)@, id as int, value, old(self).spec_depth_limit() as nat).nodes,
            r.emissions@ == emit_event(
                old(self)@,
                id as int,
                value,
                old(self).spec_depth_limit() as nat,
            ).emissions,
            r.status == emit_event(old(self)@, id as int, value, old(self).spec_depth_limit() as nat).status,
            feed_forward(old(self)@) && old(self).spec_depth_limit() + id + 1 >= old(self)@.len() ==> !(r.status
                is DepthExceeded),
            well_typed(old(self)@) && value.spec_value_type() == old(self)@[id as int].value_type ==> well_typed(
                final(self)@,
            ) && emissions_typed(old(self)@, r.emissions@),
    {
        let mut emissions: Vec<Emission> = Vec::new();
        let fuel = self.depth_limit;
        let status = self.emit_event_within(id, value, fuel, &mut emissions);
        proof {
            let o = emit_event(old(self)@, id as int, value, fuel as nat);
            assert(Seq::<Emission>::empty() + o.emissions =~= o.emissions);
            if feed_forward(old(self)@) && fuel + id + 1 >= old(self)@.len() {
                crate::frp::laws::law_feed_forward_stays_within_depth(old(self)@, id as int, value, fuel as nat);
            }
            if well_typed(old(self)@) && value.spec_value_type() == old(self)@[id as int].value_type {
                law_propagation_is_typed(old(self)@, id as int, value, fuel as nat);
            }
        }
        Propagation { emissions, status }
    }

    /// Whether every node notifies only nodes that were made after it.
    pub fn is_feed_forward(&self) -> (r: bool)
        ensures
            r == feed_forward(self@),
    {
        let mut i: usize = 0;
        while i < self.nodes.len()
            invariant
                i <= self.nodes.len(),
                forall|a: int, k: int|
                    0 <= a < i && 0 <= k < self@[a].targets.len() ==> a < (#[trigger] self@[a].targets[k]).raw
                        < self@.len(),
            decreases self.nodes.len() - i,
        {
            let mut k: usize = 0;
            while k < self.nodes[i].targets.len()
                invariant
                    i < self.nodes.len(),
                    k <= self.nodes[i as int].targets.len(),
                    forall|j: int|
                        0 <= j < k ==> i < (#[trigger] self@[i as int].targets[j]).raw < self@.len(),
                decreases self.nodes[i as int].targets.len() - k,
            {
                let target = self.nodes[i].targets[k].raw;
                if target <= i || target >= self.nodes.len() {
                    assert(!(i < self@[i as int].targets[k as int].raw < self@.len()));
                    return false;
                }
                k = k + 1;
            }
            i = i + 1;
        }
        true
    }

    /// The node `id` receives the value `value`, as if a node it listens to
    /// had sent it.
    pub fn notify(&mut self, id: usize, value: Value) -> (r: Propagation)
        requires
            old(self).wf(),
            id < old(self)@.len(),
        ensures
            final(self).wf(),
            same_wiring(old(self)@, final(self)@),
            final(self).spec_depth_limit() == old(self).spec_depth_limit(),
            final(self)@ == deliver(old(self)@, id as int, value, old(self).spec_depth_limit() as nat).nodes,
            r.emissions@ == deliver(old(self)@, id as int, value, old(self).spec_depth_limit() as nat).emissions,
            r.status == deliver(old(self)@, id as int, value, old(self).spec_depth_limit() as nat).status,
            well_typed(old(self)@) && (expected_type(old(self)@, id as int) matches Some(ty)
                ==> value.spec_value_type() == ty) ==> well_typed(final(self)@) && emissions_typed(
                old(self)@,
                r.emissions@,
            ),
    {
        let mut emissions: Vec<Emission> = Vec::new();
        let fuel = self.depth_limit;
        let status = self.on_event(id, value, fuel, &mut emissions);
        proof {
            let o = deliver(old(self)@, id as int, value, fuel as nat);
            assert(Seq::<Emission>::empty() + o.emissions =~= o.emissions);
            if well_typed(old(self)@) && (expected_type(old(self)@, id as int) matches Some(ty)
                ==> value.spec_value_type() == ty) {
                lemma_deliver_typed(old(self)@, id as int, value, fuel as nat);
            }
        }
        Propagation { emissions, status }
    }

    /// What the node `t` does with the value `v`, before anything is sent on.
    fn react(&self, t: usize, v: Value) -> (step: Step)
        requires
            self.wf(),
            t < self@.len(),
        ensures
            match self@[t as int].shape {
                Shape::Source(_) => step is Nothing,
                Shape::Merge(_) => step == Step::Emit(v),
                Shape::Toggle(s) => step == Step::Flip(ToggleShape { source: s.source, status: !s.status }),
                Shape::Hold(s) => step == Step::Store(HoldShape { source: s.source, last_val: v }),
                Shape::Recursive(_) => step == Step::Emit(v),
                Shape::Sample(s) => match current_value_of(
                    self@,
                    crate::frp::model::behavior_side(s.source1, s.source2).id as int,
                ) {
                    Some(x) => step == Step::Emit(x),
                    None => step is Fault,
                },
                Shape::Gate(s) => match current_value_of(self@, s.source1.id as int) {
                    Some(x) => if x == Value::Bool(true) {
                        step == Step::Emit(v)
                    } else {
                        step is Nothing
                    },
                    None => step is Fault,
                },
                Shape::Lambda(s) => step == Step::Emit(s.func.spec_apply(v)),
                Shape::Lambda2(s) => match current_value_of(
                    self@,
                    crate::frp::model::behavior_side(s.source1, s.source2).id as int,
                ) {
                    Some(x) => if s.source1.output is Behavior {
                        step == Step::Emit(crate::frp::node::lambda2_result(s.func.raw, x, v))
                    } else {
                        step == Step::Emit(crate::frp::node::lambda2_result(s.func.raw, v, x))
                    },
                    None => step is Fault,
                },
            },
    {
        assert(node_ok(self@, t as int));
        match &self.nodes[t].shape {
            Shape::Source(_) => Step::Nothing,
            Shape::Merge(_) => Step::Emit(v),
            Shape::Toggle(s) => Step::Flip(ToggleShape { source: s.source, status: !s.status }),
            Shape::Hold(s) => Step::Store(HoldShape { source: s.source, last_val: v }),
            Shape::Recursive(_) => Step::Emit(v),
            Shape::Sample(s) => {
                let side = match s.source1.output {
                    MessageType::Behavior => s.source1,
                    MessageType::Event => s.source2,
                };
                match self.current_value(side.id) {
                    Some(x) => Step::Emit(x),
                    None => Step::Fault,
                }
            },
            Shape::Gate(s) => match self.current_value(s.source1.id) {
                Some(x) => match x {
                    Value::Bool(true) => Step::Emit(v),
                    _ => Step::Nothing,
                },
                None => Step::Fault,
            },
            Shape::Lambda(s) => Step::Emit(s.func.call(&v)),
            Shape::Lambda2(s) => match s.source1.output {
                MessageType::Behavior => match self.current_value(s.source1.id) {
                    Some(x) => Step::Emit(s.func.call(&x, &v)),
                    None => Step::Fault,
                },
                MessageType::Event => match self.current_value(s.source2.id) {
                    Some(x) => Step::Emit(s.func.call(&v, &x)),
                    None => Step::Fault,
                },
            },
        }
    }

    /// The node `t` receives the value `v`. The notifications that follow
    /// are added to `out`.
    fn on_event(&mut self, t: usize, v: Value, fuel: usize, out: &mut Vec<Emission>) -> (status: Status)
        requires
            old(self).wf(),
            t < old(self)@.len(),
        ensures
            final(self).wf(),
            same_wiring(old(self)@, final(self)@),
            final(self).spec_depth_limit() == old(self).spec_depth_limit(),
            final(self)@ == deliver(old(self)@, t as int, v, fuel as nat).nodes,
            final(out)@ == old(out)@ + deliver(old(self)@, t as int, v, fuel as nat).emissions,
            status == deliver(old(self)@, t as int, v, fuel as nat).status,
        decreases fuel, 2nat, 0nat,
    {
        let step = self.react(t, v);
        assert(node_ok(self@, t as int));
        match step {
            Step::Nothing => {
                assert(out@ =~= old(out)@ + Seq::<Emission>::empty());
                Status::Settled
            },
            Step::Fault => {
                assert(out@ =~= old(out)@ + Seq::<Emission>::empty());
                Status::NoCurrentValue
            },
            Step::Emit(x) => self.emit_event_within(t, x, fuel, out),
            Step::Flip(s) => {
                self.nodes[t].shape = Shape::Toggle(s);
                proof {
                    assert(self@ =~= old(self)@.update(t as int, old(self)@[t as int].with_shape(Shape::Toggle(s))));
                    lemma_state_change_keeps_well_formed(old(self)@, t as int, Shape::Toggle(s));
                }
                let ghost mid = self@;
                let status = self.emit_event_within(t, Value::Bool(s.status), fuel, out);
                proof {
                    lemma_same_wiring_transitive(old(self)@, mid, self@);
                }
                status
            },
            Step::Store(s) => {
                self.nodes[t].shape = Shape::Hold(s);
                proof {
                    assert(self@ =~= old(self)@.update(t as int, old(self)@[t as int].with_shape(Shape::Hold(s))));
                    lemma_state_change_keeps_well_formed(old(self)@, t as int, Shape::Hold(s));
                    assert(out@ =~= old(out)@ + Seq::<Emission>::empty());
                }
                Status::Settled
            },
        }
    }

    /// The node `n` sends the value `v` to its targets. The notifications
    /// are added to `out`.
    fn emit_event_within(&mut self, n: usize, v: Value, fuel: usize, out: &mut Vec<Emission>) -> (status:
        Status)
        requires
            old(self).wf(),
            n < old(self)@.len(),
        ensures
            final(self).wf(),
            same_wiring(old(self)@, final(self)@),
            final(self).spec_depth_limit() == old(self).spec_depth_limit(),
            final(self)@ == emit_event(old(self)@, n as int, v, fuel as nat).nodes,
            final(out)@ == old(out)@ + emit_event(old(self)@, n as int, v, fuel as nat).emissions,
            status == emit_event(old(self)@, n as int, v, fuel as nat).status,
        decreases fuel, 1nat, 0nat,
    {
        out.push(Emission { node: n, value: v });
        let ghost targets = self@[n as int].targets;
        let ghost total = dispatch(old(self)@, targets, v, 0, fuel as nat);
        let ghost sent = out@;
        let count = self.nodes[n].targets.len();
        let mut i: usize = 0;
        let mut status = Status::Settled;
        let mut going = true;
        while going && i < count
            invariant
                self.wf(),
                same_wiring(old(self)@, self@),
                self.spec_depth_limit() == old(self).spec_depth_limit(),
                n < self@.len(),
                targets == self@[n as int].targets,
                count == targets.len(),
                i <= count,
                going ==> {
                    &&& total.nodes == dispatch(self@, targets, v, i as int, fuel as nat).nodes
                    &&& sent + total.emissions == out@ + dispatch(self@, targets, v, i as int, fuel as nat).emissions
                    &&& total.status == dispatch(self@, targets, v, i as int, fuel as nat).status
                },
                !going ==> {
                    &&& total.nodes == self@
                    &&& sent + total.emissions == out@
                    &&& total.status == status
                },
                going ==> status is Settled,
            decreases count - i + (if going { 1int } else { 0int }),
        {
            if fuel == 0 {
                status = Status::DepthExceeded;
                going = false;
                proof {
                    assert(out@ + Seq::<Emission>::empty() =~= out@);
                }
            } else {
                let t = self.nodes[n].targets[i].raw;
                assert(node_ok(self@, n as int));
                assert(self@[n as int].targets[i as int].raw < self@.len());
                let ghost before = self@;
                let ghost out_before = out@;
                let ghost first = deliver(before, t as int, v, (fuel - 1) as nat);
                status = self.on_event(t, v, fuel - 1, out);
                proof {
                    lemma_same_wiring_transitive(old(self)@, before, self@);
                    if first.status is Settled {
                        let rest = dispatch(first.nodes, targets, v, i as int + 1, fuel as nat);
                        assert(out_before + (first.emissions + rest.emissions) =~= (out_before
                            + first.emissions) + rest.emissions);
                    }
                }
                match status {
                    Status::Settled => {
                        i = i + 1;
                    },
                    _ => {
                        going = false;
                    },
                }
            }
        }
        proof {
            if going {
                assert(out@ + Seq::<Emission>::empty() =~= out@);
            }
            let e = seq![Emission { node: n, value: v }];
            assert(sent =~= old(out)@ + e);
            assert(old(out)@ + (e + total.emissions) =~= (old(out)@ + e) + total.emissions);
        }
        status
    }
}

/// Changing what a toggle or a hold remembers keeps the network well formed.
proof fn lemma_state_change_keeps_well_formed<F: Fn(&Value) -> Value, G: Fn(&Value, &Value) -> Value>(
    nodes: Seq<NodeModel<F, G>>,
    t: int,
    shape: Shape<F, G>,
)
    requires
        well_formed(nodes),
        0 <= t < nodes.len(),
        match (nodes[t].shape, shape) {
            (Shape::Toggle(a), Shape::Toggle(b)) => a.source == b.source,
            (Shape::Hold(a), Shape::Hold(b)) => a.source == b.source,
            _ => false,
        },
    ensures
        well_formed(nodes.update(t, nodes[t].with_shape(shape))),
        same_wiring(nodes, nodes.update(t, nodes[t].with_shape(shape))),
{
    let after = nodes.update(t, nodes[t].with_shape(shape));
    assert forall|i: int| 0 <= i < after.len() implies #[trigger] node_ok(after, i) by {
        assert(node_ok(nodes, i));
    }
    assert forall|i: int| 0 <= i < nodes.len() implies (#[trigger] after[i]).shape.spec_inputs()
        == nodes[i].shape.spec_inputs() by {
        if i == t {
            assert(after[i].shape.spec_inputs() =~= nodes[i].shape.spec_inputs());
        }
    }
}

/// Two changes that each keep the wiring keep it together.
pub proof fn lemma_same_wiring_transitive<F, G>(
    a: Seq<NodeModel<F, G>>,
    b: Seq<NodeModel<F, G>>,
    c: Seq<NodeModel<F, G>>,
)
    requires
        same_wiring(a, b),
        same_wiring(b, c),
    ensures
        same_wiring(a, c),
{
    assert forall|i: int| 0 <= i < a.len() implies {
        &&& (#[trigger] c[i]).targets == a[i].targets
        &&& c[i].output == a[i].output
        &&& c[i].value_type == a[i].value_type
        &&& c[i].display_id == a[i].display_id
        &&& c[i].label == a[i].label
        &&& c[i].shape.spec_inputs() == a[i].shape.spec_inputs()
    } by {
        assert(b[i].targets == a[i].targets);
    }
}

} // verus!
