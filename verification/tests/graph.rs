use reactive_core::frp::combinators::Gate;
use reactive_core::frp::combinators::Hold;
use reactive_core::frp::combinators::Lambda;
use reactive_core::frp::combinators::Merge;
use reactive_core::frp::combinators::Recursive;
use reactive_core::frp::combinators::Source;
use reactive_core::frp::debug::Graphviz;
use reactive_core::frp::debug::GraphvizBuilder;
use reactive_core::frp::dot::decimal;
use reactive_core::frp::dot::display_graphviz;
use reactive_core::frp::dot::graphviz_url;
use reactive_core::frp::dynamic::Dynamic;
use reactive_core::frp::message::EventMessage;
use reactive_core::frp::message::MessageType;
use reactive_core::frp::message::Value;
use reactive_core::frp::message::ValueType;
use reactive_core::frp::network::Network;
use reactive_core::frp::node::AnyNode;
use reactive_core::frp::traits::EventEmitter;
use reactive_core::frp::traits::HasCurrentValue;
use reactive_core::frp::traits::HasDisplayId;
use reactive_core::frp::traits::HasId;
use reactive_core::frp::traits::HasInputs;
use reactive_core::frp::traits::HasLabel;
use reactive_core::frp::traits::KnownOutputType;
use reactive_core::frp::wiring::WiringError;

type F1 = Box<dyn Fn(&Value) -> Value>;
type F2 = Box<dyn Fn(&Value, &Value) -> Value>;
type Net = Network<F1, F2>;

fn display_ids(graph: &Graphviz) -> Vec<usize> {
    (0..graph.node_count()).map(|k| graph.node(k).display_id).collect()
}

fn links(graph: &Graphviz) -> Vec<(usize, usize)> {
    (0..graph.link_count()).map(|k| (graph.link(k).source, graph.link(k).target)).collect()
}

#[test]
fn decimal_digits() {
    assert_eq!(decimal(0), "0");
    assert_eq!(decimal(7), "7");
    assert_eq!(decimal(10), "10");
    assert_eq!(decimal(1234567890), "1234567890");
    assert_eq!(decimal(usize::MAX), usize::MAX.to_string());
}

#[test]
fn graph_of_a_chain() {
    let mut net = Net::new(16);
    let s = Source::new_named(&mut net, "s", MessageType::Event, ValueType::Int);
    let h = Hold::new_named(&mut net, "h", &s.node).unwrap();
    let mut graph = Graphviz::new();
    h.node.graphviz_build(&net, &mut graph);
    assert_eq!(display_ids(&graph), vec![1, 0]);
    assert_eq!(links(&graph), vec![(0, 1)]);
    assert_eq!(graph.node(0).kind, "Hold");
    assert_eq!(graph.node(1).kind, "Source");
    assert_eq!(graph.node(1).label, "s");
    assert_eq!(graph.link(0).message_type, MessageType::Event);
    assert_eq!(graph.link(0).value_name, "i64");
    assert_eq!(
        graph.to_code(),
        "digraph G {\n  n1 [label=\"h: Hold\"];\n  n0 [label=\"s: Source\"];\n  n0 -> n1 [label=\"i64\", style=solid];\n}\n"
    );
    assert_eq!(display_graphviz(&net, h.id()), graph.to_code());
}

#[test]
fn graph_of_a_cycle_ends_and_shows_each_display_id_once() {
    let mut net = Net::new(64);
    let r = Recursive::new_named(&mut net, "r", MessageType::Event, ValueType::Int);
    let start = Source::new_named(&mut net, "start", MessageType::Event, ValueType::Int);
    let m = Merge::new_named(&mut net, "m", &start.node, &r.node).unwrap();
    let small: F1 = Box::new(|v| match v {
        Value::Int(x) => Value::Bool(*x < 3),
        _ => Value::Bool(false),
    });
    let is_small = Lambda::new_named(&mut net, "small", &m.node, ValueType::Bool, small).unwrap();
    let open = Hold::new_named(&mut net, "open", &is_small.node).unwrap();
    let g = Gate::new_named(&mut net, "g", &open.node, &m.node).unwrap();
    r.initialize(&mut net, &g.node).unwrap();
    assert!(net.is_fully_wired());
    assert_eq!(r.display_id(&net), g.display_id(&net));

    let mut graph = Graphviz::new();
    g.node.graphviz_build(&net, &mut graph);
    let mut ids = display_ids(&graph);
    // g, open, small, m, start; the recursive node is shown as g
    assert_eq!(ids, vec![5, 4, 3, 2, 1]);
    ids.sort();
    ids.dedup();
    assert_eq!(ids.len(), graph.node_count());
    // the edge back from the recursive node is drawn from g to m
    assert!(links(&graph).contains(&(5, 2)));
    assert_eq!(links(&graph), vec![(1, 2), (5, 2), (2, 3), (3, 4), (4, 5), (2, 5)]);

    // a second walk over the same graph adds nothing
    let nodes_before = graph.node_count();
    let links_before = graph.link_count();
    m.node.graphviz_build(&net, &mut graph);
    assert_eq!(graph.node_count(), nodes_before);
    assert_eq!(graph.link_count(), links_before);
    assert!(graph.contains(5));
    assert!(!graph.contains(0));
}

#[test]
fn graph_walk_from_the_recursive_node() {
    let mut net = Net::new(64);
    let r = Recursive::new_named(&mut net, "r", MessageType::Event, ValueType::Int);
    let id: F1 = Box::new(|v| *v);
    let l = Lambda::new_named(&mut net, "l", &r.node, ValueType::Int, id).unwrap();
    r.initialize(&mut net, &l.node).unwrap();
    let mut graph = Graphviz::new();
    AnyNode::new(r.id()).graphviz_build(&net, &mut graph);
    // r is shown as l; l itself is passed over, since its display id is there
    assert_eq!(display_ids(&graph), vec![1]);
    assert_eq!(links(&graph), vec![(1, 1)]);
    assert_eq!(r.inputs(&net).iter().map(|n| n.id).collect::<Vec<_>>(), vec![l.id()]);
}

#[test]
fn not_fully_wired_while_a_recursive_node_is_empty() {
    let mut net = Net::new(16);
    let s = Source::new_named(&mut net, "s", MessageType::Event, ValueType::Int);
    assert!(net.is_fully_wired());
    let r = Recursive::new_named(&mut net, "r", MessageType::Event, ValueType::Int);
    assert!(!net.is_fully_wired());
    r.initialize(&mut net, &s.node).unwrap();
    assert!(net.is_fully_wired());
}

#[test]
fn dynamic_source_and_map() {
    let mut net = Net::new(16);
    let position = Dynamic::source(&mut net, "position", ValueType::Int);
    assert_eq!(position.event.id, 0);
    assert_eq!(position.behavior.id, 1);
    assert_eq!(position.behavior.node().label(&net), "position");
    assert_eq!(position.behavior.node().display_id(&net), 0);
    let double: F1 = Box::new(|v| match v {
        Value::Int(x) => Value::Int(2 * x),
        _ => Value::Unit,
    });
    let doubled = position.map(&mut net, "doubled", ValueType::Int, double).unwrap();
    let p = position.event.node().emit(&mut net, &EventMessage(Value::Int(4))).unwrap();
    assert_eq!(p.emissions.len(), 2);
    assert_eq!(position.behavior.node().current_value(&net), Some(Value::Int(4)));
    assert_eq!(doubled.behavior.node().current_value(&net), Some(Value::Int(8)));
}

#[test]
fn dynamic_mouse_network() {
    let mut net = Net::new(32);
    let up = Dynamic::source(&mut net, "mouse.up", ValueType::Unit);
    let down = Dynamic::source(&mut net, "mouse.down", ValueType::Unit);
    let position = Dynamic::source(&mut net, "mouse.position", ValueType::Position);
    let yes: F1 = Box::new(|_| Value::Bool(true));
    let no: F1 = Box::new(|_| Value::Bool(false));
    let down_bool = down.map(&mut net, "mouse.down_bool", ValueType::Bool, yes).unwrap();
    let up_bool = up.map(&mut net, "mouse.up_bool", ValueType::Bool, no).unwrap();
    let is_down = down_bool.merge(&mut net, "mouse.is_down", &up_bool).unwrap();
    let position_on_down = position.sample(&mut net, "mouse_down_position", &down).unwrap();
    let position_if_down = position.gate(&mut net, "mouse_position_if_down", &is_down).unwrap();
    let sub: F2 = Box::new(|m, f| match (m, f) {
        (Value::Position { x: mx, y: my }, Value::Position { x: fx, y: fy }) => {
            Value::Position { x: mx - fx, y: my - fy }
        }
        _ => Value::Unit,
    });
    let dragged = position_if_down.map2(&mut net, "dragged", &position_on_down, ValueType::Position, sub).unwrap();

    let at = |x, y| EventMessage(Value::Position { x, y });
    let unit = EventMessage(Value::Unit);
    let mut drags = Vec::new();
    let mut fire = |net: &mut Net, d: &Dynamic, e: &EventMessage<Value>| {
        let p = d.event.node().emit(net, e).unwrap();
        for emission in &p.emissions {
            if emission.node == dragged.event.id {
                drags.push(emission.value);
            }
        }
    };
    fire(&mut net, &position, &at(1, 1));
    fire(&mut net, &position, &at(10, 10));
    fire(&mut net, &down, &unit);
    fire(&mut net, &position, &at(12, 15));
    fire(&mut net, &position, &at(13, 11));
    fire(&mut net, &up, &unit);
    fire(&mut net, &position, &at(20, 20));
    assert_eq!(drags, vec![Value::Position { x: 2, y: 5 }, Value::Position { x: 3, y: 1 }]);
    assert_eq!(is_down.behavior.node().current_value(&net), Some(Value::Bool(false)));
}

#[test]
fn dynamic_errors_leave_the_network_alone() {
    let mut net = Net::new(16);
    let numbers = Dynamic::source(&mut net, "numbers", ValueType::Int);
    let before = net.len();
    assert_eq!(numbers.gate(&mut net, "gated", &numbers), Err(WiringError::ValueTypeMismatch));
    let flags = Dynamic::source(&mut net, "flags", ValueType::Bool);
    assert_eq!(numbers.merge(&mut net, "merged", &flags), Err(WiringError::ValueTypeMismatch));
    assert_eq!(net.len(), before + 2);
    let toggled = numbers.toggle(&mut net, "toggled").unwrap();
    numbers.event.node().emit(&mut net, &EventMessage(Value::Int(1))).unwrap();
    assert_eq!(toggled.behavior.node().current_value(&net), Some(Value::Bool(true)));
}

#[test]
fn url_of_a_graph_is_percent_encoded() {
    assert_eq!(graphviz_url("aZ09"), "https://dreampuf.github.io/GraphvizOnline/#aZ09");
    assert_eq!(
        graphviz_url("a b\n{é}"),
        "https://dreampuf.github.io/GraphvizOnline/#a%20b%0A%7B%C3%A9%7D"
    );
    assert_eq!(graphviz_url(""), "https://dreampuf.github.io/GraphvizOnline/#");
}

fn base_type_name_by_splitting(qual_name: &str) -> String {
    let base_name = qual_name.split("<").collect::<Vec<_>>()[0];
    let name = base_name.rsplit("::").collect::<Vec<_>>()[0];
    let name = name.split("Shape").collect::<Vec<_>>()[0];
    name.into()
}

fn value_name_by_splitting(qual_name: &str) -> String {
    let param = qual_name.split('<').skip(1).collect::<String>();
    let param = &param[0..param.len() - 1];
    let param = param.rsplit("::").collect::<Vec<_>>()[0];
    param.into()
}

const TYPE_NAMES: [&str; 12] = [
    "frp::MergeShape<frp::EventMessage<i32>>",
    "frp::RecursiveShape2<frp::BehaviorMessage<bool>>",
    "frp::EventMessage<basegl::control::Position>",
    "EventMessage<i32>",
    "EventMessage<alloc::vec::Vec<i32>>",
    "a::b::SourceShape<>",
    "ShapeShape<X>",
    "::<x>",
    "a:b::c<d:e>",
    "żółw::ŁódźShape<ż::ó>",
    "x<::>",
    "a<b::>",
];

#[test]
fn base_type_name_trims_the_full_name() {
    use_names(|base, _, _| {
        assert_eq!(base("frp::MergeShape<frp::EventMessage<i32>>"), "Merge");
        assert_eq!(base("frp::RecursiveShape2<frp::BehaviorMessage<bool>>"), "Recursive");
        assert_eq!(base("i32"), "i32");
        assert_eq!(base(""), "");
        assert_eq!(base("a::b::"), "");
        assert_eq!(base("Shape"), "");
        for name in TYPE_NAMES {
            assert_eq!(base(name), base_type_name_by_splitting(name), "{}", name);
        }
    });
}

#[test]
fn value_name_trims_the_full_name() {
    use_names(|_, value, has| {
        assert_eq!(value("frp::EventMessage<basegl::control::Position>"), "Position");
        assert_eq!(value("EventMessage<i32>"), "i32");
        assert_eq!(value("EventMessage<alloc::vec::Vec<i32>>"), "Veci32>");
        assert!(!has("i32"));
        assert!(!has("x<"));
        assert!(has("x<>"));
        for name in TYPE_NAMES {
            assert!(has(name));
            assert_eq!(value(name), value_name_by_splitting(name), "{}", name);
        }
    });
}

fn use_names(check: impl Fn(fn(&str) -> String, fn(&str) -> String, fn(&str) -> bool)) {
    check(
        reactive_core::frp::names::base_type_name,
        reactive_core::frp::names::output_type_value_name,
        reactive_core::frp::names::has_value_name,
    )
}

#[test]
fn dynamic_constant_and_is_down() {
    let mut net = Net::new(32);
    let up = Dynamic::source(&mut net, "mouse.up", ValueType::Unit);
    let down = Dynamic::source(&mut net, "mouse.down", ValueType::Unit);
    let down_bool = down.constant(&mut net, "mouse.down_bool", Value::Bool(true)).unwrap();
    let up_bool = up.constant(&mut net, "mouse.up_bool", Value::Bool(false)).unwrap();
    let is_down = down_bool.merge(&mut net, "mouse.is_down", &up_bool).unwrap();
    let held = |net: &Net| is_down.behavior.node().current_value(net);
    assert_eq!(held(&net), Some(Value::Bool(false)));
    down.event.node().emit(&mut net, &EventMessage(Value::Unit)).unwrap();
    assert_eq!(held(&net), Some(Value::Bool(true)));
    up.event.node().emit(&mut net, &EventMessage(Value::Unit)).unwrap();
    assert_eq!(held(&net), Some(Value::Bool(false)));
    assert_eq!(down_bool.behavior.node().output_type_value_name(&net), "bool");
    assert!(net.is_feed_forward());
}
