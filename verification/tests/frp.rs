use reactive_core::frp::combinators::Gate;
use reactive_core::frp::combinators::Hold;
use reactive_core::frp::combinators::Lambda2;
use reactive_core::frp::combinators::Lambda;
use reactive_core::frp::combinators::Merge;
use reactive_core::frp::combinators::Recursive;
use reactive_core::frp::combinators::Sample;
use reactive_core::frp::combinators::Source;
use reactive_core::frp::combinators::Toggle;
use reactive_core::frp::message::EventMessage;
use reactive_core::frp::message::MessageType;
use reactive_core::frp::message::Value;
use reactive_core::frp::message::ValueType;
use reactive_core::frp::model::Emission;
use reactive_core::frp::model::Status;
use reactive_core::frp::network::Network;
use reactive_core::frp::node::Node;
use reactive_core::frp::traits::EventConsumer;
use reactive_core::frp::traits::EventEmitter;
use reactive_core::frp::traits::HasCurrentValue;
use reactive_core::frp::traits::HasDisplayId;
use reactive_core::frp::traits::HasId;
use reactive_core::frp::traits::HasLabel;
use reactive_core::frp::traits::KnownOutputType;
use reactive_core::frp::wiring::WiringError;

type F1 = Box<dyn Fn(&Value) -> Value>;
type F2 = Box<dyn Fn(&Value, &Value) -> Value>;
type Net = Network<F1, F2>;

fn num(v: i64) -> EventMessage<Value> {
    EventMessage(Value::Int(v))
}

fn sent_by(emissions: &[Emission], node: usize) -> Vec<Value> {
    emissions.iter().filter(|e| e.node == node).map(|e| e.value).collect()
}

fn add() -> F2 {
    Box::new(|a, b| match (a, b) {
        (Value::Int(x), Value::Int(y)) => Value::Int(x + y),
        _ => Value::Unit,
    })
}

#[test]
fn source_has_label_and_own_display_id() {
    let mut net = Net::new(16);
    let a = Source::new_named(&mut net, "A", MessageType::Event, ValueType::Int);
    let b = Source::new_named(&mut net, "B", MessageType::Behavior, ValueType::Bool);
    assert_eq!(a.id(), 0);
    assert_eq!(b.id(), 1);
    assert_eq!(a.display_id(&net), 0);
    assert_eq!(b.display_id(&net), 1);
    assert_eq!(a.label(&net), "A");
    assert_eq!(b.output_type(&net), MessageType::Behavior);
    assert_eq!(b.output_type_value_name(&net), "bool");
    assert_eq!(a.output_type_value_name(&net), "i64");
    assert_eq!(b.current_value(&net), Some(Value::Bool(false)));
    assert_eq!(a.current_value(&net), None);
}

#[test]
fn merge_passes_events_in_firing_order() {
    let mut net = Net::new(16);
    let s1 = Source::new_named(&mut net, "s1", MessageType::Event, ValueType::Int);
    let s2 = Source::new_named(&mut net, "s2", MessageType::Event, ValueType::Int);
    let m = Merge::new_named(&mut net, "m", &s1.node, &s2.node).unwrap();
    let mut seen = Vec::new();
    let first = s1.emit(&mut net, &num(1));
    seen.extend(sent_by(&first.emissions, m.id()));
    let second = s2.emit(&mut net, &num(2));
    seen.extend(sent_by(&second.emissions, m.id()));
    assert_eq!(seen, vec![Value::Int(1), Value::Int(2)]);
    assert_eq!(first.status, Status::Settled);
    assert_eq!(first.emissions, vec![Emission { node: 0, value: Value::Int(1) }, Emission { node: 2, value: Value::Int(1) }]);

    let mut reversed = Vec::new();
    let second = s2.emit(&mut net, &num(2));
    reversed.extend(sent_by(&second.emissions, m.id()));
    let first = s1.emit(&mut net, &num(1));
    reversed.extend(sent_by(&first.emissions, m.id()));
    assert_eq!(reversed, vec![Value::Int(2), Value::Int(1)]);
}

#[test]
fn merge_of_one_source_twice_fires_twice() {
    let mut net = Net::new(16);
    let s = Source::new_named(&mut net, "s", MessageType::Event, ValueType::Int);
    let m = Merge::new_named(&mut net, "m", &s.node, &s.node).unwrap();
    let p = s.emit(&mut net, &num(7));
    assert_eq!(sent_by(&p.emissions, m.id()), vec![Value::Int(7), Value::Int(7)]);
}

#[test]
fn toggle_emits_odd_parity() {
    let mut net = Net::new(16);
    let s = Source::new_named(&mut net, "s", MessageType::Event, ValueType::Unit);
    let t = Toggle::new_named(&mut net, "t", &s.node).unwrap();
    for n in 1..=6 {
        let p = s.emit(&mut net, &EventMessage(Value::Unit));
        assert_eq!(sent_by(&p.emissions, t.id()), vec![Value::Bool(n % 2 == 1)]);
    }
}

#[test]
fn hold_keeps_last_value() {
    let mut net = Net::new(16);
    let s = Source::new_named(&mut net, "s", MessageType::Event, ValueType::Int);
    let h = Hold::new_named(&mut net, "h", &s.node).unwrap();
    assert_eq!(h.current_value(&net), Some(Value::Int(0)));
    for v in [3, -4, 9] {
        let p = s.emit(&mut net, &num(v));
        assert_eq!(p.emissions.len(), 1);
        assert_eq!(h.current_value(&net), Some(Value::Int(v)));
    }
    assert_eq!(h.node.output, MessageType::Behavior);
}

#[test]
fn gate_drops_events_while_closed() {
    let mut net = Net::new(16);
    let flag = Source::new_named(&mut net, "flag", MessageType::Event, ValueType::Bool);
    let open = Hold::new_named(&mut net, "open", &flag.node).unwrap();
    let e = Source::new_named(&mut net, "e", MessageType::Event, ValueType::Int);
    let g = Gate::new_named(&mut net, "g", &open.node, &e.node).unwrap();
    let mut passed = Vec::new();
    let script: [(bool, i64); 6] = [(false, 1), (true, 2), (true, 3), (false, 4), (true, 5), (false, 6)];
    for (state, v) in script {
        flag.emit(&mut net, &EventMessage(Value::Bool(state)));
        let p = e.emit(&mut net, &num(v));
        if !state {
            assert_eq!(p.emissions, vec![Emission { node: e.id(), value: Value::Int(v) }]);
        }
        passed.extend(sent_by(&p.emissions, g.id()));
    }
    assert_eq!(passed, vec![Value::Int(2), Value::Int(3), Value::Int(5)]);
}

#[test]
fn sample_reads_held_value() {
    let mut net = Net::new(16);
    let s = Source::new_named(&mut net, "s", MessageType::Event, ValueType::Int);
    let h = Hold::new_named(&mut net, "h", &s.node).unwrap();
    let trigger = Source::new_named(&mut net, "trigger", MessageType::Event, ValueType::Unit);
    let smp = Sample::new_named(&mut net, "smp", &h.node, &trigger.node).unwrap();
    let p = trigger.emit(&mut net, &EventMessage(Value::Unit));
    assert_eq!(sent_by(&p.emissions, smp.id()), vec![Value::Int(0)]);
    s.emit(&mut net, &num(11));
    s.emit(&mut net, &num(12));
    let p = trigger.emit(&mut net, &EventMessage(Value::Unit));
    assert_eq!(sent_by(&p.emissions, smp.id()), vec![Value::Int(12)]);
    assert_eq!(smp.output_type_value_name(&net), "i64");
    // the behavior alone never triggers the sample
    let p = s.emit(&mut net, &num(13));
    assert_eq!(sent_by(&p.emissions, smp.id()), Vec::<Value>::new());
}

#[test]
fn sample_with_event_first() {
    let mut net = Net::new(16);
    let s = Source::new_named(&mut net, "s", MessageType::Event, ValueType::Int);
    let h = Hold::new_named(&mut net, "h", &s.node).unwrap();
    let trigger = Source::new_named(&mut net, "trigger", MessageType::Event, ValueType::Unit);
    let smp = Sample::new_named(&mut net, "smp", &trigger.node, &h.node).unwrap();
    s.emit(&mut net, &num(5));
    let p = trigger.emit(&mut net, &EventMessage(Value::Unit));
    assert_eq!(sent_by(&p.emissions, smp.id()), vec![Value::Int(5)]);
}

#[test]
fn lambda_transforms_events() {
    let mut net = Net::new(16);
    let s = Source::new_named(&mut net, "s", MessageType::Event, ValueType::Int);
    let double: F1 = Box::new(|v| match v {
        Value::Int(x) => Value::Int(2 * x),
        _ => Value::Unit,
    });
    let l = Lambda::new_named(&mut net, "double", &s.node, ValueType::Int, double).unwrap();
    let p = s.emit(&mut net, &num(21));
    assert_eq!(sent_by(&p.emissions, l.id()), vec![Value::Int(42)]);
    assert_eq!(l.node.output, MessageType::Event);
}

#[test]
fn lambda_over_behavior_is_a_behavior_without_value() {
    let mut net = Net::new(16);
    let b = Source::new_named(&mut net, "b", MessageType::Behavior, ValueType::Int);
    let id: F1 = Box::new(|v| *v);
    let l = Lambda::new_named(&mut net, "l", &b.node, ValueType::Int, id).unwrap();
    assert_eq!(l.node.output, MessageType::Behavior);
    assert_eq!(l.node.current_value(&net), None);
}

#[test]
fn scenario_hold_then_lambda2_sees_updated_value() {
    let mut net = Net::new(16);
    let a = Source::new_named(&mut net, "A", MessageType::Event, ValueType::Int);
    let b = Hold::new_named(&mut net, "B", &a.node).unwrap();
    let c = Lambda2::new_named(&mut net, "C", &a.node, &b.node, ValueType::Int, add()).unwrap();
    let p = a.emit(&mut net, &num(5));
    assert_eq!(b.current_value(&net), Some(Value::Int(5)));
    // B was registered before C, so C reads the value that B has just stored.
    assert_eq!(sent_by(&p.emissions, c.id()), vec![Value::Int(10)]);
}

#[test]
fn scenario_lambda2_then_hold_sees_previous_value() {
    let mut net = Net::new(16);
    let a = Source::new_named(&mut net, "A", MessageType::Event, ValueType::Int);
    // A recursive behavior lets C be wired before the hold that it reads.
    let r = Recursive::new_named(&mut net, "r", MessageType::Behavior, ValueType::Int);
    let c = Lambda2::new_named(&mut net, "C", &a.node, &r.node, ValueType::Int, add()).unwrap();
    let b = Hold::new_named(&mut net, "B", &a.node).unwrap();
    r.initialize(&mut net, &b.node).unwrap();
    let p = a.emit(&mut net, &num(5));
    assert_eq!(sent_by(&p.emissions, c.id()), vec![Value::Int(5)]);
    assert_eq!(b.current_value(&net), Some(Value::Int(5)));
    let p = a.emit(&mut net, &num(1));
    assert_eq!(sent_by(&p.emissions, c.id()), vec![Value::Int(6)]);
}

#[test]
fn lambda2_with_behavior_first() {
    let mut net = Net::new(16);
    let a = Source::new_named(&mut net, "A", MessageType::Event, ValueType::Int);
    let b = Hold::new_named(&mut net, "B", &a.node).unwrap();
    let e = Source::new_named(&mut net, "E", MessageType::Event, ValueType::Int);
    let sub: F2 = Box::new(|x, y| match (x, y) {
        (Value::Int(x), Value::Int(y)) => Value::Int(x - y),
        _ => Value::Unit,
    });
    let c = Lambda2::new_named(&mut net, "C", &b.node, &e.node, ValueType::Int, sub).unwrap();
    a.emit(&mut net, &num(10));
    let p = e.emit(&mut net, &num(3));
    assert_eq!(sent_by(&p.emissions, c.id()), vec![Value::Int(7)]);
}

#[test]
fn recursive_relays_and_takes_display_id() {
    let mut net = Net::new(16);
    let r = Recursive::new_named(&mut net, "r", MessageType::Event, ValueType::Int);
    let u = Source::new_named(&mut net, "u", MessageType::Event, ValueType::Int);
    assert_eq!(r.display_id(&net), r.id());
    r.initialize(&mut net, &u.node).unwrap();
    assert_eq!(r.display_id(&net), u.display_id(&net));
    for v in [4, 8] {
        let p = u.emit(&mut net, &num(v));
        assert_eq!(sent_by(&p.emissions, r.id()), vec![Value::Int(v)]);
    }
}

#[test]
fn recursive_cannot_be_initialized_twice() {
    let mut net = Net::new(16);
    let r = Recursive::new_named(&mut net, "r", MessageType::Event, ValueType::Int);
    let u = Source::new_named(&mut net, "u", MessageType::Event, ValueType::Int);
    assert_eq!(r.initialize(&mut net, &u.node), Ok(()));
    assert_eq!(r.initialize(&mut net, &u.node), Err(WiringError::AlreadyInitialized));
    let p = u.emit(&mut net, &num(1));
    assert_eq!(p.emissions.len(), 2);
}

#[test]
fn uninitialized_recursive_behavior_has_no_value() {
    let mut net = Net::new(16);
    let r = Recursive::new_named(&mut net, "r", MessageType::Behavior, ValueType::Int);
    let t = Source::new_named(&mut net, "t", MessageType::Event, ValueType::Unit);
    let s = Sample::new_named(&mut net, "s", &r.node, &t.node).unwrap();
    assert_eq!(r.current_value(&net), None);
    let p = t.emit(&mut net, &EventMessage(Value::Unit));
    assert_eq!(p.status, Status::NoCurrentValue);
    assert_eq!(sent_by(&p.emissions, s.id()), Vec::<Value>::new());
}

#[test]
fn feedback_loop_is_cut_at_the_depth_limit() {
    let mut net = Net::new(8);
    let r = Recursive::new_named(&mut net, "r", MessageType::Event, ValueType::Int);
    let inc: F1 = Box::new(|v| match v {
        Value::Int(x) => Value::Int(x + 1),
        _ => Value::Unit,
    });
    let l = Lambda::new_named(&mut net, "inc", &r.node, ValueType::Int, inc).unwrap();
    r.initialize(&mut net, &l.node).unwrap();
    let p = r.emit(&mut net, &num(0));
    assert_eq!(p.status, Status::DepthExceeded);
    assert_eq!(p.emissions.len(), 9);
    assert_eq!(p.emissions[8], Emission { node: r.id(), value: Value::Int(4) });
}

#[test]
fn feedback_through_a_gate_settles() {
    let mut net = Net::new(64);
    let r = Recursive::new_named(&mut net, "r", MessageType::Event, ValueType::Int);
    let start = Source::new_named(&mut net, "start", MessageType::Event, ValueType::Int);
    let m = Merge::new_named(&mut net, "m", &start.node, &r.node).unwrap();
    let small: F1 = Box::new(|v| match v {
        Value::Int(x) => Value::Bool(*x < 3),
        _ => Value::Bool(false),
    });
    let is_small = Lambda::new_named(&mut net, "small", &m.node, ValueType::Bool, small).unwrap();
    let open = Hold::new_named(&mut net, "open", &is_small.node).unwrap();
    let inc: F1 = Box::new(|v| match v {
        Value::Int(x) => Value::Int(x + 1),
        _ => Value::Unit,
    });
    let next = Lambda::new_named(&mut net, "next", &m.node, ValueType::Int, inc).unwrap();
    let g = Gate::new_named(&mut net, "g", &open.node, &next.node).unwrap();
    r.initialize(&mut net, &g.node).unwrap();
    let p = start.emit(&mut net, &num(0));
    assert_eq!(p.status, Status::Settled);
    assert_eq!(sent_by(&p.emissions, m.id()), vec![Value::Int(0), Value::Int(1), Value::Int(2), Value::Int(3)]);
}

#[test]
fn wiring_errors() {
    let mut net = Net::new(16);
    let e = Source::new_named(&mut net, "e", MessageType::Event, ValueType::Int);
    let e2 = Source::new_named(&mut net, "e2", MessageType::Event, ValueType::Bool);
    let b = Source::new_named(&mut net, "b", MessageType::Behavior, ValueType::Int);
    let flag = Source::new_named(&mut net, "flag", MessageType::Behavior, ValueType::Bool);
    let stranger = Node::new(99, MessageType::Event);
    let liar = Node::new(e.id(), MessageType::Behavior);
    let before = net.len();

    assert_eq!(Merge::new_named(&mut net, "m", &e.node, &stranger), Err(WiringError::UnknownNode));
    assert_eq!(Merge::new_named(&mut net, "m", &liar, &e.node), Err(WiringError::UnknownNode));
    assert_eq!(Merge::new_named(&mut net, "m", &e.node, &b.node), Err(WiringError::NotAnEvent));
    assert_eq!(Merge::new_named(&mut net, "m", &e.node, &e2.node), Err(WiringError::ValueTypeMismatch));
    assert_eq!(Toggle::new_named(&mut net, "t", &b.node), Err(WiringError::NotAnEvent));
    assert_eq!(Toggle::new_named(&mut net, "t", &stranger), Err(WiringError::UnknownNode));
    assert_eq!(Hold::new_named(&mut net, "h", &b.node), Err(WiringError::NotAnEvent));
    assert_eq!(Sample::new_named(&mut net, "s", &e.node, &e2.node), Err(WiringError::NotABehavior));
    assert_eq!(Sample::new_named(&mut net, "s", &b.node, &flag.node), Err(WiringError::NotAnEvent));
    assert_eq!(Gate::new_named(&mut net, "g", &e.node, &e2.node), Err(WiringError::NotABehavior));
    assert_eq!(Gate::new_named(&mut net, "g", &flag.node, &b.node), Err(WiringError::NotAnEvent));
    assert_eq!(Gate::new_named(&mut net, "g", &b.node, &e.node), Err(WiringError::ValueTypeMismatch));
    assert_eq!(
        Lambda2::new_named(&mut net, "l", &e.node, &e2.node, ValueType::Int, add()),
        Err(WiringError::NotABehavior)
    );
    let id: F1 = Box::new(|v| *v);
    assert_eq!(Lambda::new_named(&mut net, "l", &stranger, ValueType::Int, id), Err(WiringError::UnknownNode));

    let r = Recursive::new_named(&mut net, "r", MessageType::Event, ValueType::Int);
    assert_eq!(r.initialize(&mut net, &b.node), Err(WiringError::KindMismatch));
    assert_eq!(r.initialize(&mut net, &e2.node), Err(WiringError::ValueTypeMismatch));
    assert_eq!(r.initialize(&mut net, &stranger), Err(WiringError::UnknownNode));
    let not_recursive = Recursive { node: e.node };
    assert_eq!(not_recursive.initialize(&mut net, &e.node), Err(WiringError::UnknownNode));
    assert_eq!(net.len(), before + 1);

    assert!(matches!(stranger.emit(&mut net, &num(1)), Err(WiringError::UnknownNode)));
    assert!(matches!(b.node.emit(&mut net, &num(1)), Err(WiringError::NotAnEvent)));
    let p = e.node.emit(&mut net, &num(1)).unwrap();
    assert_eq!(p.emissions, vec![Emission { node: e.id(), value: Value::Int(1) }]);
}

#[test]
fn lambda2_of_two_behaviors_never_fires() {
    let mut net = Net::new(16);
    let a = Source::new_named(&mut net, "a", MessageType::Event, ValueType::Int);
    let h1 = Hold::new_named(&mut net, "h1", &a.node).unwrap();
    let h2 = Hold::new_named(&mut net, "h2", &a.node).unwrap();
    let c = Lambda2::new_named(&mut net, "c", &h1.node, &h2.node, ValueType::Int, add()).unwrap();
    assert_eq!(c.node.output, MessageType::Event);
    let p = a.emit(&mut net, &num(1));
    assert_eq!(sent_by(&p.emissions, c.id()), Vec::<Value>::new());
}

#[test]
fn on_event_delivers_to_one_consumer() {
    let mut net = Net::new(16);
    let s = Source::new_named(&mut net, "s", MessageType::Event, ValueType::Unit);
    let t = Toggle::new_named(&mut net, "t", &s.node).unwrap();
    let p = t.on_event(&mut net, &EventMessage(Value::Unit));
    assert_eq!(p.emissions, vec![Emission { node: t.id(), value: Value::Bool(true) }]);
    let p = t.on_event(&mut net, &EventMessage(Value::Unit));
    assert_eq!(p.emissions, vec![Emission { node: t.id(), value: Value::Bool(false) }]);
}

#[test]
fn targets_are_notified_in_registration_order() {
    let mut net = Net::new(16);
    let s = Source::new_named(&mut net, "s", MessageType::Event, ValueType::Unit);
    let t1 = Toggle::new_named(&mut net, "t1", &s.node).unwrap();
    let t2 = Toggle::new_named(&mut net, "t2", &s.node).unwrap();
    let t3 = Toggle::new_named(&mut net, "t3", &t1.node).unwrap();
    let p = s.emit(&mut net, &EventMessage(Value::Unit));
    let order: Vec<usize> = p.emissions.iter().map(|e| e.node).collect();
    assert_eq!(order, vec![s.id(), t1.id(), t3.id(), t2.id()]);
}

#[test]
fn network_without_feedback_never_exceeds_its_depth() {
    // a chain of four nodes needs a depth of three
    let mut net = Net::new(3);
    let s = Source::new_named(&mut net, "s", MessageType::Event, ValueType::Unit);
    let t1 = Toggle::new_named(&mut net, "t1", &s.node).unwrap();
    let t2 = Toggle::new_named(&mut net, "t2", &t1.node).unwrap();
    let t3 = Toggle::new_named(&mut net, "t3", &t2.node).unwrap();
    assert!(net.is_feed_forward());
    let p = s.emit(&mut net, &EventMessage(Value::Unit));
    assert_eq!(p.status, Status::Settled);
    assert_eq!(p.emissions.len(), 4);
    assert_eq!(p.emissions[3], Emission { node: t3.id(), value: Value::Bool(true) });

    // one level less does not reach the end of the chain
    let mut shallow = Net::new(2);
    let s = Source::new_named(&mut shallow, "s", MessageType::Event, ValueType::Unit);
    let t1 = Toggle::new_named(&mut shallow, "t1", &s.node).unwrap();
    let t2 = Toggle::new_named(&mut shallow, "t2", &t1.node).unwrap();
    Toggle::new_named(&mut shallow, "t3", &t2.node).unwrap();
    let p = s.emit(&mut shallow, &EventMessage(Value::Unit));
    assert_eq!(p.status, Status::DepthExceeded);
    assert_eq!(p.emissions.len(), 3);
}

#[test]
fn feedback_makes_a_network_not_feed_forward() {
    let mut net = Net::new(8);
    let r = Recursive::new_named(&mut net, "r", MessageType::Event, ValueType::Int);
    let id: F1 = Box::new(|v| *v);
    let l = Lambda::new_named(&mut net, "l", &r.node, ValueType::Int, id).unwrap();
    assert!(net.is_feed_forward());
    r.initialize(&mut net, &l.node).unwrap();
    assert!(!net.is_feed_forward());
}
