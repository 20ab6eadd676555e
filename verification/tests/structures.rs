use reactive_core::alphabet::Alphabet;
use reactive_core::alphabet::Symbol;
use reactive_core::context::Context;
use reactive_core::context::Empty;
use reactive_core::context::Merged;
use reactive_core::frp::message::Value;
use reactive_core::frp::network::Network;
use reactive_core::frp::traits::HasCurrentValue;
use reactive_core::graph_editor::EdgeTarget;
use reactive_core::ide::get_most_recent_project_or_create_new;
use reactive_core::ide::get_project_or_create_new;
use reactive_core::ide::lookup_project;
use reactive_core::ide::ProjectChoice;
use reactive_core::ide::ProjectMetadata;
use reactive_core::ide::ProjectNotFound;
use reactive_core::graph_editor::Node;
use reactive_core::graph_editor::NodeId;
use reactive_core::graph_editor::Nodes;
use reactive_core::graph_editor::NodeSet;
use reactive_core::graph_editor::NodeView;
use reactive_core::graph_editor::WeakNodeSet;
use reactive_core::module_location::Location;
use reactive_core::module_location::Path;
use reactive_core::pool::Pool;
use reactive_core::pool::PoolGuard;
use reactive_core::scene::Button;
use reactive_core::scene::Mouse;
use reactive_core::scene::Target;
use reactive_core::scene::Vector2;
use reactive_core::scene::Vector4;

#[test]
fn get_location_from_path() {
    let module = Path(format!("test.{}", "luna"));
    let not_module = Path("test.txt".to_string());

    let expected_loc = Location("test".to_string());
    assert_eq!(Some(expected_loc), Location::from_path(&module));
    assert_eq!(None, Location::from_path(&not_module));
}

#[test]
fn location_from_short_and_odd_paths() {
    assert!(Location::from_path(&Path::new("luna")).is_none());
    assert!(Location::from_path(&Path::new("")).is_none());
    assert_eq!(Location::from_path(&Path::new(".luna")).map(|l| l.0), Some(String::new()));
    assert_eq!(Location::from_path(&Path::new("żółw.luna")).map(|l| l.0), Some("żółw".to_string()));
    assert!(Location::from_path(&Path::new("a.lunb")).is_none());
    assert!(Location::from_path(&Path::new("a.luna.")).is_none());
}

#[test]
fn location_to_path_and_back() {
    let location = Location("Main".to_string());
    let path = location.to_path();
    assert_eq!(path.0, "./Main.luna");
    assert_eq!(Location::from_path(&path).map(|l| l.0), Some("./Main".to_string()));
}

#[test]
fn pool_hands_out_last_item_first() {
    let mut pool: Pool<usize> = Pool::new();
    assert_eq!(pool.pop(), None);
    pool.push(3);
    pool.push(5);
    assert_eq!(pool.len(), 2);
    assert_eq!(pool.pop(), Some(5));
    assert_eq!(pool.pop(), Some(3));
    assert_eq!(pool.pop(), None);
}

#[test]
fn pool_guard_gives_item_back() {
    let mut pool: Pool<usize> = Pool::new();
    pool.push(1);
    let item = pool.pop().unwrap();
    let guard = PoolGuard::new("mesh", item);
    assert_eq!(*guard.deref(), "mesh");
    assert_eq!(pool.len(), 0);
    let elem = guard.release(&mut pool);
    assert_eq!(elem, "mesh");
    assert_eq!(pool.pop(), Some(1));
}

#[test]
fn alphabet_is_divided_at_range_borders() {
    let mut alphabet = Alphabet::new();
    assert_eq!(alphabet.len(), 1);
    assert!(alphabet.contains(Symbol { val: 0 }));
    alphabet.insert(Symbol { val: 97 }, Symbol { val: 122 });
    assert!(alphabet.contains(Symbol { val: 97 }));
    assert!(alphabet.contains(Symbol { val: 123 }));
    assert!(!alphabet.contains(Symbol { val: 122 }));
    assert_eq!(alphabet.len(), 3);
    alphabet.insert(Symbol { val: 0 }, Symbol { val: 96 });
    assert_eq!(alphabet.len(), 3);
}

#[test]
fn alphabet_from_values() {
    let alphabet = Alphabet::from_values(vec![5, 1, 5, 0]);
    assert_eq!(alphabet.len(), 3);
    assert!(alphabet.contains(Symbol { val: 0 }));
    assert!(alphabet.contains(Symbol { val: 1 }));
    assert!(alphabet.contains(Symbol { val: 5 }));
}

#[test]
fn target_internal_format() {
    assert_eq!(Target::Background.to_internal(), Vector4 { x: 0, y: 0, z: 0, w: 0 });
    let symbol = Target::Symbol { symbol_id: 7, instance_id: 9 };
    assert_eq!(symbol.to_internal(), Vector4 { x: 7, y: 9, z: 0, w: 1 });
    assert_eq!(Target::from_internal(symbol.to_internal()), symbol);
    assert_eq!(Target::from_internal(Vector4 { x: 3, y: 4, z: 0, w: 0 }), Target::Background);
    assert_eq!(Target::default(), Target::Background);
    assert!(Target::is_internal_format(Vector4 { x: 1, y: 1, z: 0, w: 1 }));
    assert!(!Target::is_internal_format(Vector4 { x: 1, y: 1, z: 1, w: 1 }));
    assert!(!Target::is_internal_format(Vector4 { x: 1, y: 1, z: 0, w: 2 }));
}

#[test]
fn node_set_insert_get_remove_clear() {
    let mut set = NodeSet::new();
    let node = Node::new(NodeView { id: 4 });
    assert_eq!(node.id(), NodeId(4));
    set.insert(node.id(), node);
    set.insert(NodeId(6), Node::new(NodeView { id: 6 }));
    assert_eq!(set.get(&NodeId(4)).map(|n| n.view.id), Some(4));
    assert!(set.get(&NodeId(5)).is_none());
    set.remove(&NodeId(4));
    assert!(set.get(&NodeId(4)).is_none());
    assert!(set.get(&NodeId(6)).is_some());
    set.clear();
    assert!(set.get(&NodeId(6)).is_none());
}

#[test]
fn weak_set_sees_only_living_nodes() {
    let mut live = NodeSet::new();
    live.insert(NodeId(1), Node::new(NodeView { id: 1 }));
    live.insert(NodeId(2), Node::new(NodeView { id: 2 }));
    let mut weak = WeakNodeSet::new();
    weak.insert(&NodeView { id: 1 });
    weak.insert(&NodeView { id: 2 });
    weak.insert(&NodeView { id: 3 });
    assert_eq!(weak.borrow().len(), 3);
    assert!(weak.contains(&NodeView { id: 1 }, &live));
    assert!(!weak.contains(&NodeView { id: 3 }, &live));
    assert!(weak.get(2, &live).is_some());
    assert!(weak.get(7, &live).is_none());
    live.remove(&NodeId(2));
    assert!(weak.get(2, &live).is_none());

    let calls = std::cell::Cell::new(0);
    let mut visited = weak.for_each(&live, |_| calls.set(calls.get() + 1));
    visited.sort();
    assert_eq!(visited, vec![1]);
    assert_eq!(calls.get(), 1);
    assert_eq!(weak.borrow().len(), 3);

    let visited = weak.for_each_taken(&live, |_| calls.set(calls.get() + 1));
    assert_eq!(visited, vec![1]);
    assert_eq!(calls.get(), 2);
    assert_eq!(weak.borrow().len(), 0);
}

#[test]
fn weak_set_take_leaves_it_empty() {
    let mut weak = WeakNodeSet::new();
    weak.insert(&NodeView { id: 8 });
    let taken = weak.take();
    assert_eq!(taken.len(), 1);
    assert!(taken.contains_key(&8));
    assert_eq!(weak.borrow().len(), 0);
}

#[test]
fn selection_clear_tells_who_was_selected() {
    let mut nodes = Nodes::new();
    nodes.set.insert(NodeId(1), Node::new(NodeView { id: 1 }));
    nodes.set.insert(NodeId(2), Node::new(NodeView { id: 2 }));
    nodes.selected.insert(&NodeView { id: 2 });
    nodes.selected.insert(&NodeView { id: 9 });
    assert!(nodes.selected.contains(&NodeView { id: 2 }, &nodes.set));
    let deselected = nodes.selected.clear(&nodes.set);
    assert_eq!(deselected, vec![NodeId(2)]);
    assert!(!nodes.selected.contains(&NodeView { id: 2 }, &nodes.set));
    assert_eq!(nodes.selected.clear(&nodes.set), Vec::<NodeId>::new());
}

#[test]
fn edge_target_keeps_its_parts() {
    let target = EdgeTarget::new(NodeId(3), vec![0, 2]);
    assert_eq!(target.node_id, NodeId(3));
    assert_eq!(target.port_crumb, vec![0, 2]);
}

#[test]
fn merged_empty_contexts_know_nothing() {
    let merged = Merged::new(Empty, Empty);
    assert!(merged.invocation_info(1, Some("foo")).is_none());
    assert!(Empty.invocation_info(2, None).is_none());
}

#[test]
fn mouse_state_and_streams() {
    let mut net: Network<Box<dyn Fn(&Value) -> Value>, Box<dyn Fn(&Value, &Value) -> Value>> = Network::new(8);
    let mut mouse = Mouse::new(&mut net);
    assert_eq!(net.len(), 6);
    assert_eq!(mouse.position, Vector2 { x: 0, y: 0 });
    assert_eq!(mouse.target, Target::Background);
    assert!(!mouse.pressed(Button::Button0));

    let p = mouse.on_move(&mut net, 2, 10, 20, 110, 120);
    assert_eq!(mouse.position, Vector2 { x: 20, y: 40 });
    assert_eq!(p.emissions.len(), 1);
    assert_eq!(p.emissions[0].value, Value::Position { x: 110, y: 120 });
    assert_eq!(mouse.frp.position.behavior.node().current_value(&net), Some(Value::Position { x: 110, y: 120 }));

    let p = mouse.on_down(&mut net, Button::Button2);
    assert!(mouse.pressed(Button::Button2));
    assert!(!mouse.pressed(Button::Button1));
    assert_eq!(p.emissions[0].node, mouse.frp.on_down.event.id);
    let p = mouse.on_up(&mut net, Button::Button2);
    assert!(!mouse.pressed(Button::Button2));
    assert_eq!(p.emissions[0].node, mouse.frp.on_up.event.id);

    mouse.set_target(Target::Symbol { symbol_id: 1, instance_id: 2 });
    assert_eq!(mouse.hover_ids, Vector4 { x: 1, y: 2, z: 0, w: 1 });
}

fn project(id: u128, name: &str) -> ProjectMetadata {
    ProjectMetadata { id, name: name.to_string(), last_opened: Some("2020-01-07T21:25:26Z".to_string()) }
}

#[test]
fn project_is_looked_up_by_name() {
    let projects = vec![project(1, "Alpha"), project(2, "Beta"), project(3, "Alpha")];
    assert_eq!(lookup_project(&projects, "Beta"), Ok(project(2, "Beta")));
    assert_eq!(lookup_project(&projects, "Alpha"), Ok(project(1, "Alpha")));
    assert_eq!(lookup_project(&projects, "Alph"), Err(ProjectNotFound { name: "Alph".to_string() }));
    assert_eq!(lookup_project(&projects, "Betą"), Err(ProjectNotFound { name: "Betą".to_string() }));
    assert_eq!(get_project_or_create_new(&projects, "Beta"), ProjectChoice::Open(project(2, "Beta")));
    assert_eq!(get_project_or_create_new(&projects, "Gamma"), ProjectChoice::Create("Gamma".to_string()));
    assert_eq!(
        get_most_recent_project_or_create_new(projects, "Unnamed"),
        ProjectChoice::Open(project(3, "Alpha"))
    );
    assert_eq!(
        get_most_recent_project_or_create_new(vec![], "Unnamed"),
        ProjectChoice::Create("Unnamed".to_string())
    );
    assert_eq!(ProjectMetadata::created(9, "New"), ProjectMetadata { id: 9, name: "New".to_string(), last_opened: None });
}

#[test]
fn mouse_notices_what_it_comes_to() {
    let mut net: Network<Box<dyn Fn(&Value) -> Value>, Box<dyn Fn(&Value, &Value) -> Value>> = Network::new(8);
    let mut mouse = Mouse::new(&mut net);
    assert_eq!(mouse.handle_mouse_events(), None);
    let symbol = Target::Symbol { symbol_id: 4, instance_id: 1 };
    mouse.set_hover_ids(symbol.to_internal());
    assert_eq!(mouse.handle_mouse_events(), Some(symbol));
    assert_eq!(mouse.target, symbol);
    assert_eq!(mouse.handle_mouse_events(), None);
    mouse.set_hover_ids(Target::Background.to_internal());
    assert_eq!(mouse.handle_mouse_events(), None);
    assert_eq!(mouse.target, Target::Background);
}
