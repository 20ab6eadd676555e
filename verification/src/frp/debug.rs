//! A description of a network as a graph, for showing it. The walk starts at
//! one node and goes against the flow of data, from each node to the nodes
//! that it reads from.

use vstd::prelude::*;
use crate::frp::message::MessageType;
use crate::frp::message::Value;
use crate::frp::model::fully_wired;
use crate::frp::model::node_ok;
use crate::frp::network::Network;
use crate::frp::node::AnyNode;
use crate::frp::node::Node;
use crate::frp::node::NodeModel;

verus! {

/// One node of the graph. Several nodes of the network with one display
/// identifier are shown as one node of the graph: the one that the walk
/// reached first.
pub struct GraphNode {
    pub id: usize,
    pub display_id: usize,
    pub kind: String,
    pub label: String,
}

/// One edge of the graph, from a node to a node that reads from it. The edge
/// tells the kind and the type of what flows along it.
pub struct GraphLink {
    pub source: usize,
    pub target: usize,
    pub message_type: MessageType,
    pub value_name: String,
}

/// The mathematical model of one node of the graph.
pub struct GraphNodeModel {
    pub id: usize,
    pub display_id: usize,
    pub kind: Seq<char>,
    pub label: Seq<char>,
}

/// The mathematical model of one edge of the graph.
pub struct GraphLinkModel {
    pub source: usize,
    pub target: usize,
    pub message_type: MessageType,
    pub value_name: Seq<char>,
}

/// The mathematical model of the graph: its nodes and its edges, each in the
/// order in which the walk found them.
pub struct GraphModel {
    pub nodes: Seq<GraphNodeModel>,
    pub links: Seq<GraphLinkModel>,
}

impl View for GraphNode {
    type V = GraphNodeModel;

    open spec fn view(&self) -> GraphNodeModel {
        GraphNodeModel { id: self.id, display_id: self.display_id, kind: self.kind@, label: self.label@ }
    }
}

impl View for GraphLink {
    type V = GraphLinkModel;

    open spec fn view(&self) -> GraphLinkModel {
        GraphLinkModel {
            source: self.source,
            target: self.target,
            message_type: self.message_type,
            value_name: self.value_name@,
        }
    }
}

/// The graph under construction.
pub struct Graphviz {
    nodes: Vec<GraphNode>,
    links: Vec<GraphLink>,
}

impl View for Graphviz {
    type V = GraphModel;

    closed spec fn view(&self) -> GraphModel {
        GraphModel {
            nodes: Seq::new(self.nodes.len() as nat, |i: int| self.nodes[i]@),
            links: Seq::new(self.links.len() as nat, |i: int| self.links[i]@),
        }
    }
}

/// The graph has a node with the given display identifier.
pub open spec fn graph_contains(g: GraphModel, display_id: usize) -> bool {
    exists|k: int| 0 <= k < g.nodes.len() && (#[trigger] g.nodes[k]).display_id == display_id
}

/// No two nodes of the graph have the same display identifier.
pub open spec fn graph_distinct(g: GraphModel) -> bool {
    forall|j: int, k: int|
        0 <= j < k < g.nodes.len() ==> (#[trigger] g.nodes[j]).display_id != (#[trigger] g.nodes[k]).display_id
}

/// The node of the graph that stands for the node `id` of the network.
pub open spec fn node_entry<F, G>(nodes: Seq<NodeModel<F, G>>, id: int) -> GraphNodeModel {
    GraphNodeModel {
        id: id as usize,
        display_id: nodes[id].display_id,
        kind: nodes[id].shape.spec_kind_name(),
        label: nodes[id].label,
    }
}

/// The edge of the graph from the node `input` to the node `consumer`, which
/// reads from it.
pub open spec fn link_entry<F, G>(nodes: Seq<NodeModel<F, G>>, input: int, consumer: int) -> GraphLinkModel {
    GraphLinkModel {
        source: nodes[input].display_id,
        target: nodes[consumer].display_id,
        message_type: nodes[input].output,
        value_name: nodes[input].value_type.spec_name(),
    }
}

/// The graph `g` after the walk has visited the node `id`. A node whose
/// display identifier the graph has already is passed over, with all that it
/// reads from. At most `fuel` nodes are added.
pub open spec fn build<F, G>(nodes: Seq<NodeModel<F, G>>, id: int, g: GraphModel, fuel: nat) -> GraphModel
    decreases fuel, 0nat, 0nat,
{
    if id < 0 || id >= nodes.len() || fuel == 0 || graph_contains(g, nodes[id].display_id) {
        g
    } else {
        build_inputs(
            nodes,
            id,
            nodes[id].shape.spec_inputs(),
            0,
            GraphModel { nodes: g.nodes.push(node_entry(nodes, id)), links: g.links },
            (fuel - 1) as nat,
        )
    }
}

/// The graph `g` after the walk has visited the inputs of the node
/// `consumer` from position `from` on: each input is visited, then the edge
/// from it to the consumer is added.
pub open spec fn build_inputs<F, G>(
    nodes: Seq<NodeModel<F, G>>,
    consumer: int,
    inputs: Seq<Node>,
    from: int,
    g: GraphModel,
    fuel: nat,
) -> GraphModel
    decreases fuel, 1nat, inputs.len() - from,
{
    if from < 0 || from >= inputs.len() {
        g
    } else {
        let visited = build(nodes, inputs[from].id as int, g, fuel);
        let linked = GraphModel {
            nodes: visited.nodes,
            links: visited.links.push(link_entry(nodes, inputs[from].id as int, consumer)),
        };
        build_inputs(nodes, consumer, inputs, from + 1, linked, fuel)
    }
}

/// The nodes of the network whose display identifier the graph does not
/// have yet.
pub open spec fn unvisited<F, G>(nodes: Seq<NodeModel<F, G>>, g: GraphModel) -> Set<int> {
    Set::new(|i: int| 0 <= i < nodes.len() && !graph_contains(g, nodes[i].display_id))
}

impl Graphviz {
    /// A graph without nodes and edges.
    pub fn new() -> (r: Self)
        ensures
            r@.nodes.len() == 0,
            r@.links.len() == 0,
    {
        Graphviz { nodes: Vec::new(), links: Vec::new() }
    }

    /// Whether the graph has a node with the given display identifier.
    pub fn contains(&self, display_id: usize) -> (r: bool)
        ensures
            r == graph_contains(self@, display_id),
    {
        let mut k: usize = 0;
        while k < self.nodes.len()
            invariant
                k <= self.nodes.len(),
                forall|j: int| 0 <= j < k ==> (#[trigger] self@.nodes[j]).display_id != display_id,
            decreases self.nodes.len() - k,
        {
            if self.nodes[k].display_id == display_id {
                assert(self@.nodes[k as int].display_id == display_id);
                return true;
            }
            k = k + 1;
        }
        false
    }

    /// Adds a node to the graph.
    pub fn add_node(&mut self, id: usize, display_id: usize, kind: String, label: String)
        ensures
            final(self)@.nodes == old(self)@.nodes.push(
                GraphNodeModel { id, display_id, kind: kind@, label: label@ },
            ),
            final(self)@.links == old(self)@.links,
    {
        self.nodes.push(GraphNode { id, display_id, kind, label });
        assert(self@.nodes =~= old(self)@.nodes.push(
            GraphNodeModel { id, display_id, kind: kind@, label: label@ },
        ));
        assert(self@.links =~= old(self)@.links);
    }

    /// Adds an edge to the graph.
    pub fn add_link(&mut self, source: usize, target: usize, message_type: MessageType, value_name: String)
        ensures
            final(self)@.links == old(self)@.links.push(
                GraphLinkModel { source, target, message_type, value_name: value_name@ },
            ),
            final(self)@.nodes == old(self)@.nodes,
    {
        self.links.push(GraphLink { source, target, message_type, value_name });
        assert(self@.links =~= old(self)@.links.push(
            GraphLinkModel { source, target, message_type, value_name: value_name@ },
        ));
        assert(self@.nodes =~= old(self)@.nodes);
    }

    /// The number of nodes of the graph.
    pub fn node_count(&self) -> (r: usize)
        ensures
            r == self@.nodes.len(),
    {
        self.nodes.len()
    }

    /// The number of edges of the graph.
    pub fn link_count(&self) -> (r: usize)
        ensures
            r == self@.links.len(),
    {
        self.links.len()
    }

    /// The node of the graph at the given position.
    pub fn node(&self, k: usize) -> (r: &GraphNode)
        requires
            k < self@.nodes.len(),
        ensures
            r@ == self@.nodes[k as int],
    {
        &self.nodes[k]
    }

    /// The edge of the graph at the given position.
    pub fn link(&self, k: usize) -> (r: &GraphLink)
        requires
            k < self@.links.len(),
        ensures
            r@ == self@.links[k as int],
    {
        &self.links[k]
    }
}

/// The nodes whose display identifier a graph lacks are finitely many, no
/// more than the network has nodes.
pub proof fn lemma_unvisited_finite<F, G>(nodes: Seq<NodeModel<F, G>>, g: GraphModel)
    ensures
        unvisited(nodes, g).finite(),
        unvisited(nodes, g).len() <= nodes.len(),
{
    let all = vstd::set_lib::set_int_range(0, nodes.len() as int);
    vstd::set_lib::lemma_int_range(0, nodes.len() as int);
    assert(unvisited(nodes, g).subset_of(all));
    vstd::set_lib::lemma_len_subset(unvisited(nodes, g), all);
}

/// A graph that has every display identifier that another graph has lacks
/// no more nodes than the other.
pub proof fn lemma_unvisited_shrinks<F, G>(nodes: Seq<NodeModel<F, G>>, before: GraphModel, after: GraphModel)
    requires
        forall|d: usize| graph_contains(before, d) ==> graph_contains(after, d),
    ensures
        unvisited(nodes, after).subset_of(unvisited(nodes, before)),
        unvisited(nodes, after).len() <= unvisited(nodes, before).len(),
{
    lemma_unvisited_finite(nodes, before);
    assert(unvisited(nodes, after).subset_of(unvisited(nodes, before)));
    vstd::set_lib::lemma_len_subset(unvisited(nodes, after), unvisited(nodes, before));
}

/// Adding the node `id` to a graph that lacks its display identifier leaves
/// fewer nodes that the graph lacks.
pub proof fn lemma_unvisited_after_add<F, G>(nodes: Seq<NodeModel<F, G>>, g: GraphModel, id: int)
    requires
        0 <= id < nodes.len(),
        !graph_contains(g, nodes[id].display_id),
    ensures
        unvisited(nodes, GraphModel { nodes: g.nodes.push(node_entry(nodes, id)), links: g.links }).len()
            < unvisited(nodes, g).len(),
        forall|d: usize|
            graph_contains(g, d) ==> graph_contains(
                GraphModel { nodes: g.nodes.push(node_entry(nodes, id)), links: g.links },
                d,
            ),
        graph_contains(
            GraphModel { nodes: g.nodes.push(node_entry(nodes, id)), links: g.links },
            nodes[id].display_id,
        ),
{
    let after = GraphModel { nodes: g.nodes.push(node_entry(nodes, id)), links: g.links };
    assert(after.nodes[g.nodes.len() as int].display_id == nodes[id].display_id);
    assert forall|d: usize| graph_contains(g, d) implies graph_contains(after, d) by {
        let k = choose|k: int| 0 <= k < g.nodes.len() && (#[trigger] g.nodes[k]).display_id == d;
        assert(after.nodes[k].display_id == d);
    }
    lemma_unvisited_finite(nodes, g);
    let smaller = unvisited(nodes, g).remove(id);
    assert(unvisited(nodes, g).contains(id));
    assert(unvisited(nodes, after).subset_of(smaller));
    vstd::set_lib::lemma_len_subset(unvisited(nodes, after), smaller);
}

/// A link changes nothing about which display identifiers a graph has.
pub proof fn lemma_link_keeps_nodes(g: GraphModel, link: GraphLinkModel)
    ensures
        forall|d: usize|
            graph_contains(g, d) <==> graph_contains(GraphModel { nodes: g.nodes, links: g.links.push(link) }, d),
{
    let after = GraphModel { nodes: g.nodes, links: g.links.push(link) };
    assert forall|d: usize| graph_contains(g, d) <==> graph_contains(after, d) by {
        if graph_contains(g, d) {
            let k = choose|k: int| 0 <= k < g.nodes.len() && (#[trigger] g.nodes[k]).display_id == d;
            assert(after.nodes[k].display_id == d);
        }
        if graph_contains(after, d) {
            let k = choose|k: int| 0 <= k < after.nodes.len() && (#[trigger] after.nodes[k]).display_id == d;
            assert(g.nodes[k].display_id == d);
        }
    }
}

/// The walk only adds to a graph: every display identifier that the graph
/// had it still has, and so has that of the node at which the walk started,
/// if the walk was allowed to add a node.
pub proof fn lemma_build_grows<F, G>(nodes: Seq<NodeModel<F, G>>, id: int, g: GraphModel, fuel: nat)
    ensures
        forall|d: usize| graph_contains(g, d) ==> graph_contains(build(nodes, id, g, fuel), d),
        0 <= id < nodes.len() && fuel > 0 ==> graph_contains(build(nodes, id, g, fuel), nodes[id].display_id),
    decreases fuel, 0nat, 0nat,
{
    if id < 0 || id >= nodes.len() || fuel == 0 || graph_contains(g, nodes[id].display_id) {
    } else {
        let start = GraphModel { nodes: g.nodes.push(node_entry(nodes, id)), links: g.links };
        lemma_unvisited_after_add(nodes, g, id);
        lemma_build_inputs_grows(nodes, id, nodes[id].shape.spec_inputs(), 0, start, (fuel - 1) as nat);
    }
}

/// The walk over the inputs of a node only adds to a graph.
pub proof fn lemma_build_inputs_grows<F, G>(
    nodes: Seq<NodeModel<F, G>>,
    consumer: int,
    inputs: Seq<Node>,
    from: int,
    g: GraphModel,
    fuel: nat,
)
    ensures
        forall|d: usize|
            graph_contains(g, d) ==> graph_contains(build_inputs(nodes, consumer, inputs, from, g, fuel), d),
    decreases fuel, 1nat, inputs.len() - from,
{
    if from < 0 || from >= inputs.len() {
    } else {
        let visited = build(nodes, inputs[from].id as int, g, fuel);
        let link = link_entry(nodes, inputs[from].id as int, consumer);
        let linked = GraphModel { nodes: visited.nodes, links: visited.links.push(link) };
        lemma_build_grows(nodes, inputs[from].id as int, g, fuel);
        lemma_link_keeps_nodes(visited, link);
        lemma_build_inputs_grows(nodes, consumer, inputs, from + 1, linked, fuel);
    }
}

/// The walk shows every display identifier once: it adds no node with a
/// display identifier that the graph has, however often it reaches one.
pub proof fn law_build_keeps_display_ids_distinct<F, G>(
    nodes: Seq<NodeModel<F, G>>,
    id: int,
    g: GraphModel,
    fuel: nat,
)
    requires
        graph_distinct(g),
    ensures
        graph_distinct(build(nodes, id, g, fuel)),
    decreases fuel, 0nat, 0nat,
{
    if id < 0 || id >= nodes.len() || fuel == 0 || graph_contains(g, nodes[id].display_id) {
    } else {
        let start = GraphModel { nodes: g.nodes.push(node_entry(nodes, id)), links: g.links };
        assert(graph_distinct(start)) by {
            assert forall|j: int, k: int| 0 <= j < k < start.nodes.len() implies (#[trigger] start.nodes[j]).display_id
                != (#[trigger] start.nodes[k]).display_id by {
                if k == g.nodes.len() {
                    assert(g.nodes[j].display_id != nodes[id].display_id);
                } else {
                    assert(g.nodes[j].display_id != g.nodes[k].display_id);
                }
            }
        }
        lemma_build_inputs_distinct(nodes, id, nodes[id].shape.spec_inputs(), 0, start, (fuel - 1) as nat);
    }
}

/// The walk over the inputs of a node shows every display identifier once.
pub proof fn lemma_build_inputs_distinct<F, G>(
    nodes: Seq<NodeModel<F, G>>,
    consumer: int,
    inputs: Seq<Node>,
    from: int,
    g: GraphModel,
    fuel: nat,
)
    requires
        graph_distinct(g),
    ensures
        graph_distinct(build_inputs(nodes, consumer, inputs, from, g, fuel)),
    decreases fuel, 1nat, inputs.len() - from,
{
    if from < 0 || from >= inputs.len() {
    } else {
        let visited = build(nodes, inputs[from].id as int, g, fuel);
        let link = link_entry(nodes, inputs[from].id as int, consumer);
        let linked = GraphModel { nodes: visited.nodes, links: visited.links.push(link) };
        law_build_keeps_display_ids_distinct(nodes, inputs[from].id as int, g, fuel);
        assert(graph_distinct(linked));
        lemma_build_inputs_distinct(nodes, consumer, inputs, from + 1, linked, fuel);
    }
}

/// The walk ends by itself, also where the nodes read from each other in a
/// circle: every node that it adds brings a display identifier that the
/// graph lacked, so it adds at most as many nodes as the graph lacks. An
/// allowance of that many nodes is never used up, and a greater allowance
/// changes nothing.
pub proof fn law_build_ends<F, G>(nodes: Seq<NodeModel<F, G>>, id: int, g: GraphModel, fuel: nat, more: nat)
    requires
        unvisited(nodes, g).len() <= fuel <= more,
    ensures
        build(nodes, id, g, fuel) == build(nodes, id, g, more),
    decreases fuel, 0nat, 0nat,
{
    if id < 0 || id >= nodes.len() || graph_contains(g, nodes[id].display_id) {
    } else {
        lemma_unvisited_finite(nodes, g);
        assert(unvisited(nodes, g).contains(id));
        lemma_unvisited_after_add(nodes, g, id);
        let start = GraphModel { nodes: g.nodes.push(node_entry(nodes, id)), links: g.links };
        lemma_build_inputs_ends(
            nodes,
            id,
            nodes[id].shape.spec_inputs(),
            0,
            start,
            (fuel - 1) as nat,
            (more - 1) as nat,
        );
    }
}

/// The walk over the inputs of a node ends by itself.
pub proof fn lemma_build_inputs_ends<F, G>(
    nodes: Seq<NodeModel<F, G>>,
    consumer: int,
    inputs: Seq<Node>,
    from: int,
    g: GraphModel,
    fuel: nat,
    more: nat,
)
    requires
        unvisited(nodes, g).len() <= fuel <= more,
    ensures
        build_inputs(nodes, consumer, inputs, from, g, fuel) == build_inputs(
            nodes,
            consumer,
            inputs,
            from,
            g,
            more,
        ),
    decreases fuel, 1nat, inputs.len() - from,
{
    if from < 0 || from >= inputs.len() {
    } else {
        let visited = build(nodes, inputs[from].id as int, g, fuel);
        let link = link_entry(nodes, inputs[from].id as int, consumer);
        let linked = GraphModel { nodes: visited.nodes, links: visited.links.push(link) };
        law_build_ends(nodes, inputs[from].id as int, g, fuel, more);
        lemma_build_grows(nodes, inputs[from].id as int, g, fuel);
        lemma_link_keeps_nodes(visited, link);
        lemma_unvisited_shrinks(nodes, g, linked);
        lemma_build_inputs_ends(nodes, consumer, inputs, from + 1, linked, fuel, more);
    }
}

/// The nodes of the graph from position `from` on stand for nodes of the
/// network, and whatever such a node reads from is shown in the graph.
pub open spec fn inputs_shown<F, G>(nodes: Seq<NodeModel<F, G>>, g: GraphModel, from: int) -> bool {
    forall|j: int, k: int|
        from <= j < g.nodes.len() && 0 <= k < nodes[(#[trigger] g.nodes[j]).id as int].shape.spec_inputs().len()
            ==> graph_contains(
            g,
            nodes[(#[trigger] nodes[g.nodes[j].id as int].shape.spec_inputs()[k]).id as int].display_id,
        )
}

/// The walk shows whatever it passes: every node that it adds to the graph
/// has all that it reads from in the graph, under the display identifiers.
/// The allowance has to be what the walk in fact gets: as many nodes as the
/// graph lacks, or more.
pub proof fn law_build_shows_inputs<F: Fn(&Value) -> Value, G: Fn(&Value, &Value) -> Value>(
    nodes: Seq<NodeModel<F, G>>,
    id: int,
    g: GraphModel,
    fuel: nat,
)
    requires
        crate::frp::model::well_formed(nodes),
        nodes.len() <= usize::MAX,
        unvisited(nodes, g).len() <= fuel,
    ensures
        build(nodes, id, g, fuel).nodes.len() >= g.nodes.len(),
        build(nodes, id, g, fuel).nodes.subrange(0, g.nodes.len() as int) == g.nodes,
        inputs_shown(nodes, build(nodes, id, g, fuel), g.nodes.len() as int),
        0 <= id < nodes.len() ==> graph_contains(build(nodes, id, g, fuel), nodes[id].display_id),
        forall|d: usize| graph_contains(g, d) ==> graph_contains(build(nodes, id, g, fuel), d),
    decreases fuel, 0nat, 0nat,
{
    let result = build(nodes, id, g, fuel);
    if id < 0 || id >= nodes.len() || graph_contains(g, nodes[id].display_id) {
        assert(result.nodes.subrange(0, g.nodes.len() as int) =~= g.nodes);
    } else {
        lemma_unvisited_finite(nodes, g);
        assert(unvisited(nodes, g).contains(id));
        lemma_unvisited_after_add(nodes, g, id);
        let start = GraphModel { nodes: g.nodes.push(node_entry(nodes, id)), links: g.links };
        let inputs = nodes[id].shape.spec_inputs();
        assert forall|k: int| 0 <= k < inputs.len() implies ((#[trigger] inputs[k]).id as int) < nodes.len() by {
            assert(node_ok(nodes, id));
            lemma_inputs_in_range(nodes, id, k);
        }
        lemma_build_inputs_shows_inputs(nodes, id, inputs, 0, start, (fuel - 1) as nat);
        assert(result.nodes.subrange(0, g.nodes.len() as int) =~= g.nodes) by {
            assert(result.nodes.subrange(0, start.nodes.len() as int) == start.nodes);
            assert forall|j: int| 0 <= j < g.nodes.len() implies result.nodes[j] == g.nodes[j] by {
                assert(result.nodes.subrange(0, start.nodes.len() as int)[j] == start.nodes[j]);
            }
        }
        assert(result.nodes[g.nodes.len() as int] == node_entry(nodes, id)) by {
            assert(result.nodes.subrange(0, start.nodes.len() as int)[g.nodes.len() as int]
                == start.nodes[g.nodes.len() as int]);
        }
        assert forall|j: int, k: int|
            g.nodes.len() <= j < result.nodes.len() && 0 <= k < nodes[(#[trigger] result.nodes[j]).id
                as int].shape.spec_inputs().len() implies graph_contains(
            result,
            nodes[(#[trigger] nodes[result.nodes[j].id as int].shape.spec_inputs()[k]).id as int].display_id,
        ) by {
            if j == g.nodes.len() {
                assert(result.nodes[j].id as int == id);
                assert(graph_contains(result, nodes[inputs[k].id as int].display_id));
            }
        }
        assert(graph_contains(start, nodes[id].display_id));
    }
}

/// What `law_build_shows_inputs` says, of the walk over the inputs of a
/// node: besides, every input from position `from` on is shown.
pub proof fn lemma_build_inputs_shows_inputs<F: Fn(&Value) -> Value, G: Fn(&Value, &Value) -> Value>(
    nodes: Seq<NodeModel<F, G>>,
    consumer: int,
    inputs: Seq<Node>,
    from: int,
    g: GraphModel,
    fuel: nat,
)
    requires
        crate::frp::model::well_formed(nodes),
        nodes.len() <= usize::MAX,
        unvisited(nodes, g).len() <= fuel,
        0 <= from,
        forall|k: int| 0 <= k < inputs.len() ==> ((#[trigger] inputs[k]).id as int) < nodes.len(),
    ensures
        build_inputs(nodes, consumer, inputs, from, g, fuel).nodes.len() >= g.nodes.len(),
        build_inputs(nodes, consumer, inputs, from, g, fuel).nodes.subrange(0, g.nodes.len() as int) == g.nodes,
        inputs_shown(nodes, build_inputs(nodes, consumer, inputs, from, g, fuel), g.nodes.len() as int),
        forall|k: int|
            from <= k < inputs.len() ==> graph_contains(
                build_inputs(nodes, consumer, inputs, from, g, fuel),
                nodes[(#[trigger] inputs[k]).id as int].display_id,
            ),
        forall|d: usize|
            graph_contains(g, d) ==> graph_contains(build_inputs(nodes, consumer, inputs, from, g, fuel), d),
    decreases fuel, 1nat, inputs.len() - from,
{
    let result = build_inputs(nodes, consumer, inputs, from, g, fuel);
    if from >= inputs.len() {
        assert(result.nodes.subrange(0, g.nodes.len() as int) =~= g.nodes);
    } else {
        let input = inputs[from].id as int;
        let visited = build(nodes, input, g, fuel);
        let link = link_entry(nodes, input, consumer);
        let linked = GraphModel { nodes: visited.nodes, links: visited.links.push(link) };
        law_build_shows_inputs(nodes, input, g, fuel);
        lemma_link_keeps_nodes(visited, link);
        lemma_unvisited_shrinks(nodes, g, linked);
        lemma_build_inputs_shows_inputs(nodes, consumer, inputs, from + 1, linked, fuel);
        assert(result.nodes.subrange(0, g.nodes.len() as int) =~= g.nodes) by {
            assert forall|j: int| 0 <= j < g.nodes.len() implies result.nodes[j] == g.nodes[j] by {
                assert(result.nodes.subrange(0, linked.nodes.len() as int)[j] == linked.nodes[j]);
                assert(visited.nodes.subrange(0, g.nodes.len() as int)[j] == g.nodes[j]);
            }
        }
        assert forall|j: int, k: int|
            g.nodes.len() <= j < result.nodes.len() && 0 <= k < nodes[(#[trigger] result.nodes[j]).id
                as int].shape.spec_inputs().len() implies graph_contains(
            result,
            nodes[(#[trigger] nodes[result.nodes[j].id as int].shape.spec_inputs()[k]).id as int].display_id,
        ) by {
            if j < linked.nodes.len() {
                assert(result.nodes.subrange(0, linked.nodes.len() as int)[j] == linked.nodes[j]);
                assert(result.nodes[j] == visited.nodes[j]);
                let shown = nodes[nodes[visited.nodes[j].id as int].shape.spec_inputs()[k].id as int].display_id;
                assert(graph_contains(visited, shown));
                assert(graph_contains(linked, shown));
            }
        }
        assert forall|k: int| from <= k < inputs.len() implies graph_contains(
            result,
            nodes[(#[trigger] inputs[k]).id as int].display_id,
        ) by {
            if k == from {
                assert(graph_contains(visited, nodes[input].display_id));
                assert(graph_contains(linked, nodes[input].display_id));
            }
        }
        assert forall|d: usize| graph_contains(g, d) implies graph_contains(result, d) by {
            assert(graph_contains(visited, d));
            assert(graph_contains(linked, d));
        }
    }
}

/// The walk from the node `id`, which adds to the graph what it finds.
fn build_within<F: Fn(&Value) -> Value, G: Fn(&Value, &Value) -> Value>(
    net: &Network<F, G>,
    id: usize,
    builder: &mut Graphviz,
    fuel: usize,
)
    requires
        net.wf(),
        fully_wired(net@),
        id < net@.len(),
        unvisited(net@, old(builder)@).len() <= fuel,
    ensures
        final(builder)@ == build(net@, id as int, old(builder)@, fuel as nat),
        forall|d: usize| graph_contains(old(builder)@, d) ==> graph_contains(final(builder)@, d),
        graph_contains(final(builder)@, net@[id as int].display_id),
    decreases fuel, 0nat, 0nat,
{
    let display_id = net.display_id(id);
    if builder.contains(display_id) {
        return ;
    }
    proof {
        lemma_unvisited_finite(net@, builder@);
        assert(unvisited(net@, builder@).contains(id as int));
        lemma_unvisited_after_add(net@, builder@, id as int);
    }
    builder.add_node(id, display_id, net.kind_name(id), net.label(id));
    let ghost start = builder@;
    assert(start == (GraphModel {
        nodes: old(builder)@.nodes.push(node_entry(net@, id as int)),
        links: old(builder)@.links,
    }));
    let inputs = net.inputs(id);
    let ghost ins = net@[id as int].shape.spec_inputs();
    let mut k: usize = 0;
    assert(node_ok(net@, id as int));
    while k < inputs.len()
        invariant
            net.wf(),
            fully_wired(net@),
            id < net@.len(),
            fuel > 0,
            display_id == net@[id as int].display_id,
            ins == net@[id as int].shape.spec_inputs(),
            inputs@.len() == ins.len(),
            forall|j: int| 0 <= j < inputs@.len() ==> (#[trigger] inputs@[j]).id == ins[j].id,
            k <= inputs.len(),
            unvisited(net@, builder@).len() <= fuel - 1,
            forall|d: usize| graph_contains(start, d) ==> graph_contains(builder@, d),
            build_inputs(net@, id as int, ins, 0, start, (fuel - 1) as nat) == build_inputs(
                net@,
                id as int,
                ins,
                k as int,
                builder@,
                (fuel - 1) as nat,
            ),
        decreases inputs.len() - k,
    {
        let input = inputs[k].id;
        proof {
            assert(node_ok(net@, id as int));
            lemma_inputs_in_range(net@, id as int, k as int);
        }
        let ghost before = builder@;
        build_within(net, input, builder, fuel - 1);
        let ghost visited = builder@;
        builder.add_link(
            net.display_id(input),
            display_id,
            net.output_type(input),
            net.value_type(input).name(),
        );
        proof {
            let link = link_entry(net@, input as int, id as int);
            assert(builder@ == (GraphModel { nodes: visited.nodes, links: visited.links.push(link) }));
            lemma_link_keeps_nodes(visited, link);
            lemma_unvisited_shrinks(net@, before, builder@);
        }
        k = k + 1;
    }
}

/// The nodes that a node of a well-formed network reads from are nodes of
/// the network.
pub proof fn lemma_inputs_in_range<F: Fn(&Value) -> Value, G: Fn(&Value, &Value) -> Value>(
    nodes: Seq<NodeModel<F, G>>,
    id: int,
    k: int,
)
    requires
        0 <= id < nodes.len(),
        node_ok(nodes, id),
        0 <= k < nodes[id].shape.spec_inputs().len(),
    ensures
        (nodes[id].shape.spec_inputs()[k].id as int) < nodes.len(),
{
}

/// Adds to a graph the part of the network that a node depends on.
pub trait GraphvizBuilder: crate::frp::traits::HasId {
    /// Walks from this node against the flow of data and adds to the graph
    /// every node that it reaches and whose display identifier the graph does
    /// not have yet, and an edge for every input of each node that it adds.
    fn graphviz_build<F: Fn(&Value) -> Value, G: Fn(&Value, &Value) -> Value>(
        &self,
        net: &Network<F, G>,
        builder: &mut Graphviz,
    )
        requires
            net.wf(),
            fully_wired(net@),
            self.spec_id() < net@.len(),
        ensures
            final(builder)@ == build(net@, self.spec_id() as int, old(builder)@, net@.len()),
            graph_contains(final(builder)@, net@[self.spec_id() as int].display_id),
            forall|d: usize| graph_contains(old(builder)@, d) ==> graph_contains(final(builder)@, d),
            graph_distinct(old(builder)@) ==> graph_distinct(final(builder)@),
            final(builder)@.nodes.subrange(0, old(builder)@.nodes.len() as int) == old(builder)@.nodes,
            inputs_shown(net@, final(builder)@, old(builder)@.nodes.len() as int),
    {
        proof {
            lemma_unvisited_finite(net@, builder@);
            net.lemma_len_bounded();
            law_build_shows_inputs(net@, self.spec_id() as int, builder@, net@.len());
            if graph_distinct(builder@) {
                law_build_keeps_display_ids_distinct(net@, self.spec_id() as int, builder@, net@.len());
            }
        }
        let fuel = net.len();
        build_within(net, self.id(), builder, fuel);
    }
}

impl GraphvizBuilder for AnyNode {

}

impl GraphvizBuilder for Node {

}

} // verus!
