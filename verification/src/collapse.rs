//! Collapsing nodes of a graph into a new method: which identifiers flow
//! into the nodes that are collapsed, and which one flows out of them.

use vstd::prelude::*;
use std::collections::HashSet;
use crate::text_order::lemma_text_set;
use crate::text_order::rising;
use crate::text_order::sorted_unique;
use crate::text_order::text_set;

verus! {

broadcast use vstd::std_specs::hash::group_hash_axioms;

/// What is known of a node of the graph: its identifier, the pattern that
/// its line assigns to, if it assigns, and its expression.
#[derive(Clone, Debug, PartialEq, Eq)]
pub struct NodeInfo {
    pub id: u128,
    pub pattern: Option<String>,
    pub expression: String,
}

/// A line of the body of a definition.
#[derive(Clone, Debug, PartialEq, Eq)]
pub enum Line {
    /// A line without anything.
    Blank,
    /// A line that is a node of the graph.
    Node(NodeInfo),
    /// A line that is no node, given by its text.
    Other(String),
}

/// A definition: its name, the names of its parameters and the lines of its
/// body.
#[derive(Clone, Debug, PartialEq, Eq)]
pub struct DefinitionInfo {
    pub name: String,
    pub parameters: Vec<String>,
    pub lines: Vec<Line>,
}

/// One end of a connection: a place in the expression of a node, with the
/// identifier that stands at the place, if one does.
#[derive(Clone, Debug, PartialEq, Eq)]
pub struct Endpoint {
    pub node: u128,
    pub crumbs: Vec<usize>,
    pub identifier: Option<String>,
}

/// A connection between two nodes: the destination uses the identifier that
/// the source introduces.
#[derive(Clone, Debug, PartialEq, Eq)]
pub struct Connection {
    pub source: Endpoint,
    pub destination: Endpoint,
}

/// The graph of a definition: the definition, whose lines hold the nodes,
/// and the connections between the nodes.
#[derive(Clone, Debug, PartialEq, Eq)]
pub struct GraphInfo {
    pub source: DefinitionInfo,
    pub connections: Vec<Connection>,
}

/// At least one node must be selected for collapsing refactoring.
#[derive(Clone, Copy, Debug, PartialEq, Eq)]
pub struct NoNodesSelected;

/// Internal refactoring error: cannot resolve the node.
#[derive(Clone, Copy, Debug, PartialEq, Eq)]
pub struct CannotResolveConnectionEndpoint(pub u128);

/// Internal refactoring error: cannot resolve the identifier for the
/// endpoint at the node.
#[derive(Clone, Copy, Debug, PartialEq, Eq)]
pub struct EndpointIdentifierCannotBeResolved(pub u128);

/// Collapsing nodes is supported only when there would be at most one
/// output from the collapsed function. Found more than one output.
#[derive(Clone, Debug, PartialEq, Eq)]
pub struct MultipleOutputIdentifiers(pub String, pub String);

/// Why nodes cannot be collapsed.
#[derive(Clone, Debug, PartialEq, Eq)]
pub enum CollapseError {
    NoNodesSelected(NoNodesSelected),
    CannotResolveConnectionEndpoint(CannotResolveConnectionEndpoint),
    EndpointIdentifierCannotBeResolved(EndpointIdentifierCannotBeResolved),
    MultipleOutputIdentifiers(MultipleOutputIdentifiers),
}

/// The mathematical model of an error.
pub enum Failure {
    NoNodesSelected,
    CannotResolveConnectionEndpoint(u128),
    EndpointIdentifierCannotBeResolved(u128),
    MultipleOutputIdentifiers(Seq<char>, Seq<char>),
}

impl View for CollapseError {
    type V = Failure;

    open spec fn view(&self) -> Failure {
        match self {
            CollapseError::NoNodesSelected(_) => Failure::NoNodesSelected,
            CollapseError::CannotResolveConnectionEndpoint(e) => Failure::CannotResolveConnectionEndpoint(e.0),
            CollapseError::EndpointIdentifierCannotBeResolved(e) => Failure::EndpointIdentifierCannotBeResolved(
                e.0,
            ),
            CollapseError::MultipleOutputIdentifiers(e) => Failure::MultipleOutputIdentifiers(e.0@, e.1@),
        }
    }
}

/// The line is the node with the given identifier.
pub open spec fn is_node(line: Line, id: u128) -> bool {
    line matches Line::Node(node) && node.id == id
}

/// The position of the first node with the given identifier among the first
/// `n` lines, if there is one.
pub open spec fn position_of(nodes: Seq<Line>, id: u128, n: int) -> Option<int>
    decreases n,
{
    if n <= 0 {
        None
    } else {
        match position_of(nodes, id, n - 1) {
            Some(i) => Some(i),
            None => if is_node(nodes[n - 1], id) {
                Some(n - 1)
            } else {
                None
            },
        }
    }
}

/// The identifier at the source of the connection, or why there is none:
/// the node of the source is looked up first.
pub open spec fn variable_of(nodes: Seq<Line>, connection: Connection) -> Result<Seq<char>, Failure> {
    if position_of(nodes, connection.source.node, nodes.len() as int) is None {
        Err(Failure::CannotResolveConnectionEndpoint(connection.source.node))
    } else {
        match connection.source.identifier {
            Some(name) => Ok(name@),
            None => Err(Failure::EndpointIdentifierCannotBeResolved(connection.source.node)),
        }
    }
}

/// What was found while the connections were gone through: the identifiers
/// that flow into the selection, in the order of the connections, and the
/// identifier that flows out of it, with the node that introduces it.
pub struct Flow {
    pub inputs: Seq<Seq<char>>,
    pub output: Option<Seq<char>>,
    pub output_node: Option<u128>,
}

/// What is found after one more connection. A connection from outside into
/// the selection gives an input. The first connection from the selection to
/// the outside gives the output; a later one has to carry the same
/// identifier.
pub open spec fn flow_step(nodes: Seq<Line>, selected: Set<u128>, flow: Flow, connection: Connection) -> Result<
    Flow,
    Failure,
> {
    let starts_inside = selected.contains(connection.source.node);
    let ends_inside = selected.contains(connection.destination.node);
    match variable_of(nodes, connection) {
        Err(e) => Err(e),
        Ok(identifier) => if !starts_inside && ends_inside {
            Ok(Flow { inputs: flow.inputs.push(identifier), ..flow })
        } else if starts_inside && !ends_inside {
            match flow.output {
                Some(previous) => if identifier != previous {
                    Err(Failure::MultipleOutputIdentifiers(identifier, previous))
                } else {
                    Ok(flow)
                },
                None => Ok(
                    Flow { output: Some(identifier), output_node: Some(connection.source.node), ..flow },
                ),
            }
        } else {
            Ok(flow)
        },
    }
}

/// What is found after the first `n` connections, or the first failure.
pub open spec fn flow_of(nodes: Seq<Line>, selected: Set<u128>, connections: Seq<Connection>, n: int) -> Result<
    Flow,
    Failure,
>
    decreases n,
{
    if n <= 0 {
        Ok(Flow { inputs: Seq::empty(), output: None, output_node: None })
    } else {
        match flow_of(nodes, selected, connections, n - 1) {
            Err(e) => Err(e),
            Ok(flow) => flow_step(nodes, selected, flow, connections[n - 1]),
        }
    }
}

/// The position of the first among the first `n` selected identifiers that
/// is the identifier of no node, if there is one.
pub open spec fn first_unknown(nodes: Seq<Line>, selected: Seq<u128>, n: int) -> Option<int>
    decreases n,
{
    if n <= 0 {
        None
    } else {
        match first_unknown(nodes, selected, n - 1) {
            Some(i) => Some(i),
            None => if position_of(nodes, selected[n - 1], nodes.len() as int) is None {
                Some(n - 1)
            } else {
                None
            },
        }
    }
}

/// The text of the line of a node: its pattern, an equals sign and its
/// expression, or the expression alone where nothing is assigned.
pub open spec fn node_text(node: NodeInfo) -> Seq<char> {
    match node.pattern {
        Some(pattern) => pattern@ + seq![' ', '=', ' '] + node.expression@,
        None => node.expression@,
    }
}

/// The mathematical model of a node.
pub struct NodeInfoModel {
    pub id: u128,
    pub pattern: Option<Seq<char>>,
    pub expression: Seq<char>,
}

impl View for NodeInfo {
    type V = NodeInfoModel;

    open spec fn view(&self) -> NodeInfoModel {
        NodeInfoModel { id: self.id, pattern: text_of(self.pattern), expression: self.expression@ }
    }
}

/// The first node with the given identifier. The identifier has to be
/// that of a node.
pub open spec fn node_with(nodes: Seq<Line>, id: u128) -> NodeInfoModel {
    nodes[position_of(nodes, id, nodes.len() as int)->Some_0]->Node_0@
}

/// The nodes with the given identifiers.
pub open spec fn selected_models(nodes: Seq<Line>, ids: Seq<u128>) -> Seq<NodeInfoModel> {
    Seq::new(ids.len(), |k: int| node_with(nodes, ids[k]))
}

/// The models of the nodes.
pub open spec fn node_models(nodes: Seq<NodeInfo>) -> Seq<NodeInfoModel> {
    Seq::new(nodes.len(), |k: int| nodes[k]@)
}

/// The text of the line of a node, by its model.
pub open spec fn model_text(node: NodeInfoModel) -> Seq<char> {
    match node.pattern {
        Some(pattern) => pattern + seq![' ', '=', ' '] + node.expression,
        None => node.expression,
    }
}

impl NodeInfo {
    /// A copy of the node.
    pub fn duplicate(&self) -> (r: Self)
        ensures
            r@ == self@,
    {
        let pattern = match &self.pattern {
            Some(pattern) => Some(pattern.clone()),
            None => None,
        };
        NodeInfo { id: self.id, pattern, expression: self.expression.clone() }
    }

    /// The text of the line of the node.
    pub fn text(&self) -> (r: String)
        ensures
            r@ == node_text(*self),
            r@ == model_text(self@),
    {
        match &self.pattern {
            Some(pattern) => {
                let mut r = pattern.clone();
                r.append(" = ");
                r.append(self.expression.as_str());
                proof {
                    reveal_strlit(" = ");
                    assert(" = "@ =~= seq![' ', '=', ' ']);
                }
                r
            },
            None => self.expression.clone(),
        }
    }
}

/// The texts of the strings.
pub open spec fn texts(names: Seq<String>) -> Seq<Seq<char>> {
    Seq::new(names.len(), |i: int| names[i]@)
}

/// The text of the string, if there is one.
pub open spec fn text_of(name: Option<String>) -> Option<Seq<char>> {
    match name {
        Some(s) => Some(s@),
        None => None,
    }
}

// ---------------------------------------------------------------------------
// GraphHelper
// ---------------------------------------------------------------------------

/// Helper that stores the refactored graph information and provides methods
/// for its processing.
#[derive(Clone, Debug)]
pub struct GraphHelper {
    /// The graph of definition where the node collapsing takes place.
    pub info: GraphInfo,
}

impl GraphHelper {
    /// Create a helper for the given graph.
    pub fn new(graph: GraphInfo) -> (r: Self)
        ensures
            r.info == graph,
    {
        GraphHelper { info: graph }
    }

    /// Get the information about node described by the given ID: the first
    /// node of the graph with the identifier.
    pub fn lookup_node(&self, id: u128) -> (r: Result<&NodeInfo, CannotResolveConnectionEndpoint>)
        ensures
            match position_of(self.info.source.lines@, id, self.info.source.lines@.len() as int) {
                Some(i) => r matches Ok(node) && Line::Node(*node) == self.info.source.lines@[i],
                None => r matches Err(e) && e.0 == id,
            },
    {
        let mut i: usize = 0;
        while i < self.info.source.lines.len()
            invariant
                i <= self.info.source.lines.len(),
                position_of(self.info.source.lines@, id, i as int) is None,
            decreases self.info.source.lines.len() - i,
        {
            match &self.info.source.lines[i] {
                Line::Node(node) => {
                    if node.id == id {
                        proof {
                            lemma_position_found(
                                self.info.source.lines@,
                                id,
                                i as int,
                                self.info.source.lines@.len() as int,
                            );
                        }
                        return Ok(node);
                    }
                },
                _ => {},
            }
            i = i + 1;
        }
        Err(CannotResolveConnectionEndpoint(id))
    }

    /// Get the identifier constituting a connection's endpoint.
    pub fn endpoint_identifier(&self, endpoint: &Endpoint) -> (r: Result<String, CollapseError>)
        ensures
            position_of(self.info.source.lines@, endpoint.node, self.info.source.lines@.len() as int) is None ==> (r matches Err(
                e,
            ) && e@ == Failure::CannotResolveConnectionEndpoint(endpoint.node)),
            position_of(self.info.source.lines@, endpoint.node, self.info.source.lines@.len() as int) is Some ==> match endpoint.identifier {
                Some(name) => r matches Ok(found) && found@ == name@,
                None => r matches Err(e) && e@ == Failure::EndpointIdentifierCannotBeResolved(endpoint.node),
            },
    {
        match self.lookup_node(endpoint.node) {
            Err(e) => Err(CollapseError::CannotResolveConnectionEndpoint(e)),
            Ok(_) => match &endpoint.identifier {
                Some(name) => Ok(name.clone()),
                None => Err(
                    CollapseError::EndpointIdentifierCannotBeResolved(
                        EndpointIdentifierCannotBeResolved(endpoint.node),
                    ),
                ),
            },
        }
    }

    /// Get the variable form of the identifier for the given connection.
    pub fn connection_variable(&self, connection: &Connection) -> (r: Result<String, CollapseError>)
        ensures
            match variable_of(self.info.source.lines@, *connection) {
                Ok(name) => r matches Ok(found) && found@ == name,
                Err(failure) => r matches Err(e) && e@ == failure,
            },
    {
        self.endpoint_identifier(&connection.source)
    }
}

/// Where a node with the identifier stands at position `i` and none stands
/// before it, the position of the identifier is `i`.
pub proof fn lemma_position_found(nodes: Seq<Line>, id: u128, i: int, n: int)
    requires
        0 <= i < n <= nodes.len(),
        is_node(nodes[i], id),
        position_of(nodes, id, i) is None,
    ensures
        position_of(nodes, id, n) == Some(i),
    decreases n - i,
{
    if n == i + 1 {
    } else {
        lemma_position_found(nodes, id, i, n - 1);
    }
}

// ---------------------------------------------------------------------------
// Extracted
// ---------------------------------------------------------------------------

/// Describes the nodes to be extracted into a new definition by collapsing.
#[derive(Debug)]
pub struct Extracted {
    /// Identifiers used in the collapsed nodes from the outside scope.
    pub inputs: Vec<String>,
    /// The identifier from the extracted nodes that is used outside.
    /// Currently we allow at most one.
    pub output: Option<String>,
    /// The node that introduces output variable.
    pub output_node: Option<u128>,
    /// Nodes that are being collapsed and extracted into a separate method.
    pub selected_nodes: Vec<u128>,
    /// What is known of these nodes.
    pub selected_lines: Vec<NodeInfo>,
    /// Helper for efficient lookup.
    pub selected_nodes_set: HashSet<u128>,
}

impl Extracted {
    /// Collect the extracted node information.
    pub fn new(graph: &GraphHelper, selected_nodes: &Vec<u128>) -> (r: Result<Self, CollapseError>)
        ensures
            match first_unknown(graph.info.source.lines@, selected_nodes@, selected_nodes@.len() as int) {
                Some(i) => r matches Err(e) && e@ == Failure::CannotResolveConnectionEndpoint(selected_nodes@[i]),
                None => match flow_of(
                    graph.info.source.lines@,
                    selected_nodes@.to_set(),
                    graph.info.connections@,
                    graph.info.connections@.len() as int,
                ) {
                    Err(failure) => r matches Err(e) && e@ == failure,
                    Ok(flow) => r matches Ok(extracted) && {
                        &&& texts(extracted.inputs@) == flow.inputs
                        &&& text_of(extracted.output) == flow.output
                        &&& extracted.output_node == flow.output_node
                        &&& extracted.selected_nodes_set@ == selected_nodes@.to_set()
                        &&& extracted.selected_nodes@ == selected_nodes@
                        &&& node_models(extracted.selected_lines@) == selected_models(
                            graph.info.source.lines@,
                            selected_nodes@,
                        )
                    },
                },
            },
    {
        let mut nodes: Vec<u128> = Vec::new();
        let mut lines: Vec<NodeInfo> = Vec::new();
        let mut set: HashSet<u128> = HashSet::new();
        let mut k: usize = 0;
        while k < selected_nodes.len()
            invariant
                k <= selected_nodes.len(),
                first_unknown(graph.info.source.lines@, selected_nodes@, k as int) is None,
                nodes@ == selected_nodes@.subrange(0, k as int),
                node_models(lines@) == selected_models(graph.info.source.lines@, selected_nodes@.subrange(0, k as int)),
                set@ == selected_nodes@.subrange(0, k as int).to_set(),
            decreases selected_nodes.len() - k,
        {
            let id = selected_nodes[k];
            match graph.lookup_node(id) {
                Err(e) => {
                    proof {
                        lemma_first_unknown_found(
                            graph.info.source.lines@,
                            selected_nodes@,
                            k as int,
                            selected_nodes@.len() as int,
                        );
                    }
                    return Err(CollapseError::CannotResolveConnectionEndpoint(e));
                },
                Ok(node) => {
                    proof {
                        lemma_position_is_node(graph.info.source.lines@, id, graph.info.source.lines@.len() as int);
                    }
                    let ghost lines_before = lines@;
                    nodes.push(id);
                    lines.push(node.duplicate());
                    set.insert(id);
                    proof {
                        let before = selected_nodes@.subrange(0, k as int);
                        let after = selected_nodes@.subrange(0, k as int + 1);
                        assert(after =~= before.push(id));
                        assert(nodes@ =~= after);
                        assert(node_models(lines@) =~= node_models(lines_before).push(node@));
                        assert(selected_models(graph.info.source.lines@, after) =~= selected_models(
                            graph.info.source.lines@,
                            before,
                        ).push(node@));
                        assert(after.to_set() =~= before.to_set().insert(id)) by {
                            assert forall|x: u128| after.to_set().contains(x) <==> before.to_set().insert(
                                id,
                            ).contains(x) by {
                                if after.contains(x) {
                                    let j = choose|j: int| 0 <= j < after.len() && after[j] == x;
                                    if j < before.len() {
                                        assert(before[j] == x);
                                    }
                                }
                                if before.contains(x) {
                                    let j = choose|j: int| 0 <= j < before.len() && before[j] == x;
                                    assert(after[j] == x);
                                }
                                if x == id {
                                    assert(after[k as int] == x);
                                }
                            }
                        }
                    }
                },
            }
            k = k + 1;
        }
        assert(selected_nodes@.subrange(0, k as int) =~= selected_nodes@);
        let mut output_node: Option<u128> = None;
        let mut inputs: Vec<String> = Vec::new();
        let mut output: Option<String> = None;
        let mut c: usize = 0;
        assert(texts(inputs@) =~= Seq::<Seq<char>>::empty());
        while c < graph.info.connections.len()
            invariant
                c <= graph.info.connections.len(),
                set@ == selected_nodes@.to_set(),
                first_unknown(graph.info.source.lines@, selected_nodes@, selected_nodes@.len() as int) is None,
                nodes@ == selected_nodes@,
                node_models(lines@) == selected_models(graph.info.source.lines@, selected_nodes@),
                flow_of(graph.info.source.lines@, set@, graph.info.connections@, c as int) == Ok::<Flow, Failure>(
                    Flow { inputs: texts(inputs@), output: text_of(output), output_node },
                ),
            decreases graph.info.connections.len() - c,
        {
            let connection = &graph.info.connections[c];
            let starts_inside = set.contains(&connection.source.node);
            let ends_inside = set.contains(&connection.destination.node);
            let ghost flow = Flow { inputs: texts(inputs@), output: text_of(output), output_node };
            let identifier = match graph.connection_variable(connection) {
                Err(e) => {
                    proof {
                        assert(flow_of(graph.info.source.lines@, set@, graph.info.connections@, c as int + 1) == Err::<
                            Flow,
                            Failure,
                        >(e@));
                        lemma_flow_fails(
                            graph.info.source.lines@,
                            set@,
                            graph.info.connections@,
                            c as int + 1,
                            graph.info.connections@.len() as int,
                        );
                    }
                    return Err(e);
                },
                Ok(identifier) => identifier,
            };
            if !starts_inside && ends_inside {
                let ghost before = inputs@;
                inputs.push(identifier);
                proof {
                    assert(texts(inputs@) =~= texts(before).push(identifier@));
                }
            } else if starts_inside && !ends_inside {
                match &output {
                    Some(previous) => {
                        if identifier != *previous {
                            let failure = MultipleOutputIdentifiers(identifier, previous.clone());
                            proof {
                                assert(flow_of(graph.info.source.lines@, set@, graph.info.connections@, c as int + 1)
                                    == Err::<Flow, Failure>(
                                    Failure::MultipleOutputIdentifiers(identifier@, previous@),
                                ));
                                lemma_flow_fails(
                                    graph.info.source.lines@,
                                    set@,
                                    graph.info.connections@,
                                    c as int + 1,
                                    graph.info.connections@.len() as int,
                                );
                            }
                            return Err(CollapseError::MultipleOutputIdentifiers(failure));
                        }
                    },
                    None => {
                        output = Some(identifier);
                        output_node = Some(connection.source.node);
                    },
                }
            }
            c = c + 1;
        }
        Ok(Extracted { selected_nodes_set: set, selected_nodes: nodes, selected_lines: lines, inputs, output, output_node })
    }

    /// Check if the given node belongs to the selection (i.e. is extracted
    /// into a new method).
    pub fn is_selected(&self, id: u128) -> (r: bool)
        ensures
            r == self.selected_nodes_set@.contains(id),
    {
        self.selected_nodes_set.contains(&id)
    }

    /// The line that needs to be appended to the lines of the extracted
    /// nodes: to return a value we just utter its identifier. `None` if there
    /// is no such need.
    pub fn return_line(&self) -> (r: Option<String>)
        ensures
            text_of(r) == text_of(self.output),
    {
        match &self.output {
            Some(name) => Some(name.clone()),
            None => None,
        }
    }
}

/// The position that is found for an identifier is that of a node with the
/// identifier.
pub proof fn lemma_position_is_node(nodes: Seq<Line>, id: u128, n: int)
    requires
        0 <= n <= nodes.len(),
    ensures
        position_of(nodes, id, n) matches Some(i) ==> 0 <= i < n && is_node(nodes[i], id),
    decreases n,
{
    if n > 0 {
        lemma_position_is_node(nodes, id, n - 1);
    }
}

/// Where the selected identifier at position `k` is that of no node, and
/// all before it are identifiers of nodes, it is the first unknown one.
pub proof fn lemma_first_unknown_found(nodes: Seq<Line>, selected: Seq<u128>, k: int, n: int)
    requires
        0 <= k < n <= selected.len(),
        first_unknown(nodes, selected, k) is None,
        position_of(nodes, selected[k], nodes.len() as int) is None,
    ensures
        first_unknown(nodes, selected, n) == Some(k),
    decreases n - k,
{
    if n == k + 1 {
    } else {
        lemma_first_unknown_found(nodes, selected, k, n - 1);
    }
}

/// A failure at one connection is the failure of all that follows.
pub proof fn lemma_flow_fails(
    nodes: Seq<Line>,
    selected: Set<u128>,
    connections: Seq<Connection>,
    k: int,
    n: int,
)
    requires
        0 <= k <= n <= connections.len(),
        flow_of(nodes, selected, connections, k) is Err,
    ensures
        flow_of(nodes, selected, connections, n) == flow_of(nodes, selected, connections, k),
    decreases n - k,
{
    if n > k {
        lemma_flow_fails(nodes, selected, connections, k, n - 1);
    }
}

// ---------------------------------------------------------------------------
// The new method
// ---------------------------------------------------------------------------

/// The definition of a method that is to be added: its name, the names of
/// its parameters, the first line of its body and the lines after it.
#[derive(Clone, Debug, PartialEq, Eq)]
pub struct ToAdd {
    pub name: String,
    pub explicit_parameter_names: Vec<String>,
    pub body_head: NodeInfo,
    pub body_tail: Vec<Option<String>>,
}

/// The texts of the lines, where a line that is missing stays missing.
pub open spec fn optional_texts(lines: Seq<Option<String>>) -> Seq<Option<Seq<char>>> {
    Seq::new(lines.len(), |i: int| text_of(lines[i]))
}

/// The lines of the new method after its first: the lines of the selected
/// nodes but the first, and the identifier that flows out, if there is one.
pub open spec fn body_tail_of(selected: Seq<NodeInfoModel>, output: Option<Seq<char>>) -> Seq<
    Option<Seq<char>>,
> {
    let lines = Seq::new((selected.len() - 1) as nat, |i: int| Some(model_text(selected[i + 1])));
    match output {
        Some(name) => lines.push(Some(name)),
        None => lines,
    }
}

impl Extracted {
    /// Generate the description for the new method's definition with the
    /// extracted nodes. Its parameters are the identifiers that flow into
    /// the nodes, each once, in the order of a dictionary. At least one node
    /// has to be selected.
    pub fn generate(&self, name: String) -> (r: ToAdd)
        requires
            self.selected_lines@.len() > 0,
        ensures
            r.name == name,
            rising(r.explicit_parameter_names@),
            text_set(r.explicit_parameter_names@, r.explicit_parameter_names@.len() as int) == text_set(
                self.inputs@,
                self.inputs@.len() as int,
            ),
            r.body_head@ == self.selected_lines@[0]@,
            optional_texts(r.body_tail@) == body_tail_of(node_models(self.selected_lines@), text_of(self.output)),
    {
        let explicit_parameter_names = sorted_unique(&self.inputs);
        let body_head = self.selected_lines[0].duplicate();
        let mut body_tail: Vec<Option<String>> = Vec::new();
        let mut i: usize = 1;
        while i < self.selected_lines.len()
            invariant
                1 <= i <= self.selected_lines.len(),
                body_tail@.len() == i - 1,
                forall|k: int|
                    0 <= k < i - 1 ==> text_of(#[trigger] body_tail@[k]) == Some(
                        model_text(self.selected_lines@[k + 1]@),
                    ),
            decreases self.selected_lines.len() - i,
        {
            body_tail.push(Some(self.selected_lines[i].text()));
            i = i + 1;
        }
        match self.return_line() {
            Some(line) => {
                body_tail.push(Some(line));
            },
            None => {},
        }
        proof {
            assert(optional_texts(body_tail@) =~= body_tail_of(
                node_models(self.selected_lines@),
                text_of(self.output),
            ));
        }
        ToAdd { name, explicit_parameter_names, body_head, body_tail }
    }
}

/// The text of a call of a method of this module with the first `n` of the
/// arguments.
pub open spec fn call_text(name: Seq<char>, arguments: Seq<String>, n: int) -> Seq<char>
    decreases n,
{
    if n <= 0 {
        seq!['h', 'e', 'r', 'e', '.'] + name
    } else {
        call_text(name, arguments, n - 1) + seq![' '] + arguments[n - 1]@
    }
}

/// The text of the first line of a definition with the first `n` of the
/// parameters, up to the equals sign.
pub open spec fn header_text(name: Seq<char>, parameters: Seq<String>, n: int) -> Seq<char>
    decreases n,
{
    if n <= 0 {
        name
    } else {
        header_text(name, parameters, n - 1) + seq![' '] + parameters[n - 1]@
    }
}

/// The text of a name followed by the given words, each after a blank.
fn with_words(start: String, words: &Vec<String>) -> (r: String)
    ensures
        r@ == header_text(start@, words@, words@.len() as int),
{
    let mut r = start;
    let mut i: usize = 0;
    while i < words.len()
        invariant
            i <= words.len(),
            r@ == header_text(start@, words@, i as int),
        decreases words.len() - i,
    {
        r.append(" ");
        r.append(words[i].as_str());
        proof {
            reveal_strlit(" ");
            assert(" "@ =~= seq![' ']);
        }
        i = i + 1;
    }
    r
}

/// The text of the first `n` lines of a body, each on a line of its own,
/// indented by four blanks. A line that is missing is empty.
pub open spec fn block_text(lines: Seq<Option<Seq<char>>>, n: int) -> Seq<char>
    decreases n,
{
    if n <= 0 {
        Seq::empty()
    } else {
        block_text(lines, n - 1) + seq!['\n', ' ', ' ', ' ', ' '] + (match lines[n - 1] {
            Some(text) => text,
            None => Seq::empty(),
        })
    }
}

/// The text of the definition of the new method. A body of one line that
/// assigns nothing stands behind the equals sign; every other body is a
/// block below the first line.
pub open spec fn to_add_text(method: ToAdd) -> Seq<char> {
    let header = header_text(
        method.name@,
        method.explicit_parameter_names@,
        method.explicit_parameter_names@.len() as int,
    ) + seq![' ', '='];
    if method.body_tail@.len() == 0 && method.body_head.pattern is None {
        header + seq![' '] + method.body_head.expression@
    } else {
        header + seq!['\n', ' ', ' ', ' ', ' '] + model_text(method.body_head@) + block_text(
            optional_texts(method.body_tail@),
            method.body_tail@.len() as int,
        )
    }
}

impl ToAdd {
    /// The text of the definition.
    pub fn text(&self) -> (r: String)
        ensures
            r@ == to_add_text(*self),
    {
        let mut r = with_words(self.name.clone(), &self.explicit_parameter_names);
        r.append(" =");
        proof {
            reveal_strlit(" =");
            reveal_strlit(" ");
            reveal_strlit("\n    ");
            assert(" ="@ =~= seq![' ', '=']);
            assert(" "@ =~= seq![' ']);
            assert("\n    "@ =~= seq!['\n', ' ', ' ', ' ', ' ']);
        }
        if self.body_tail.len() == 0 && self.body_head.pattern.is_none() {
            r.append(" ");
            r.append(self.body_head.expression.as_str());
            r
        } else {
            r.append("\n    ");
            r.append(self.body_head.text().as_str());
            let ghost start = r@;
            let mut i: usize = 0;
            while i < self.body_tail.len()
                invariant
                    i <= self.body_tail.len(),
                    "\n    "@ == seq!['\n', ' ', ' ', ' ', ' '],
                    r@ == start + block_text(optional_texts(self.body_tail@), i as int),
                decreases self.body_tail.len() - i,
            {
                r.append("\n    ");
                match &self.body_tail[i] {
                    Some(line) => {
                        r.append(line.as_str());
                    },
                    None => {},
                }
                proof {
                    assert(r@ =~= start + block_text(optional_texts(self.body_tail@), i as int + 1));
                }
                i = i + 1;
            }
            r
        }
    }
}

// ---------------------------------------------------------------------------
// Rewriting the definition
// ---------------------------------------------------------------------------

/// Collapser rewrites the refactoring definition line-by-line. This enum
/// describes action to be taken for a given line.
#[derive(Clone, Debug, PartialEq, Eq)]
pub enum LineDisposition {
    Keep,
    Remove,
    Replace(NodeInfo),
}

/// The mathematical model of a line.
pub enum LineModel {
    Blank,
    Node(NodeInfoModel),
    Other(Seq<char>),
}

impl View for Line {
    type V = LineModel;

    open spec fn view(&self) -> LineModel {
        match self {
            Line::Blank => LineModel::Blank,
            Line::Node(node) => LineModel::Node(node@),
            Line::Other(text) => LineModel::Other(text@),
        }
    }
}

impl Line {
    /// A copy of the line.
    pub fn duplicate(&self) -> (r: Self)
        ensures
            r@ == self@,
    {
        match self {
            Line::Blank => Line::Blank,
            Line::Node(node) => Line::Node(node.duplicate()),
            Line::Other(text) => Line::Other(text.clone()),
        }
    }
}

/// The first `n` lines after each was kept, removed or replaced as its
/// disposition says.
pub open spec fn rewritten(lines: Seq<Line>, dispositions: Seq<LineDisposition>, n: int) -> Seq<LineModel>
    decreases n,
{
    if n <= 0 {
        Seq::empty()
    } else {
        let before = rewritten(lines, dispositions, n - 1);
        match dispositions[n - 1] {
            LineDisposition::Keep => before.push(lines[n - 1]@),
            LineDisposition::Remove => before,
            LineDisposition::Replace(node) => before.push(LineModel::Node(node@)),
        }
    }
}

/// The models of the lines.
pub open spec fn line_models(lines: Seq<Line>) -> Seq<LineModel> {
    Seq::new(lines.len(), |i: int| lines[i]@)
}

impl GraphHelper {
    /// Rewrite lines of the refactored definition: each line is kept,
    /// removed or replaced as the disposition at its position says.
    pub fn rewrite_definition(&self, dispositions: &Vec<LineDisposition>) -> (r: DefinitionInfo)
        requires
            dispositions@.len() == self.info.source.lines@.len(),
        ensures
            r.name@ == self.info.source.name@,
            texts(r.parameters@) == texts(self.info.source.parameters@),
            line_models(r.lines@) == rewritten(
                self.info.source.lines@,
                dispositions@,
                dispositions@.len() as int,
            ),
    {
        let mut new_lines: Vec<Line> = Vec::new();
        let mut i: usize = 0;
        while i < self.info.source.lines.len()
            invariant
                i <= self.info.source.lines.len(),
                dispositions@.len() == self.info.source.lines@.len(),
                line_models(new_lines@) == rewritten(self.info.source.lines@, dispositions@, i as int),
            decreases self.info.source.lines.len() - i,
        {
            let ghost before = new_lines@;
            match &dispositions[i] {
                LineDisposition::Keep => {
                    new_lines.push(self.info.source.lines[i].duplicate());
                    proof {
                        assert(line_models(new_lines@) =~= line_models(before).push(
                            self.info.source.lines@[i as int]@,
                        ));
                    }
                },
                LineDisposition::Remove => {},
                LineDisposition::Replace(node) => {
                    new_lines.push(Line::Node(node.duplicate()));
                    proof {
                        assert(line_models(new_lines@) =~= line_models(before).push(LineModel::Node(node@)));
                    }
                },
            }
            i = i + 1;
        }
        let mut parameters: Vec<String> = Vec::new();
        let mut k: usize = 0;
        while k < self.info.source.parameters.len()
            invariant
                k <= self.info.source.parameters.len(),
                parameters@.len() == k,
                forall|j: int| 0 <= j < k ==> (#[trigger] parameters@[j])@ == self.info.source.parameters@[j]@,
            decreases self.info.source.parameters.len() - k,
        {
            parameters.push(self.info.source.parameters[k].clone());
            k = k + 1;
        }
        proof {
            assert(texts(parameters@) =~= texts(self.info.source.parameters@));
        }
        DefinitionInfo { name: self.info.source.name.clone(), parameters, lines: new_lines }
    }
}

/// The text of a line.
pub open spec fn line_model_text(line: LineModel) -> Option<Seq<char>> {
    match line {
        LineModel::Blank => None,
        LineModel::Node(node) => Some(model_text(node)),
        LineModel::Other(text) => Some(text),
    }
}

/// The text of a definition: its name and its parameters, an equals sign,
/// and its lines as a block.
pub open spec fn definition_text(definition: DefinitionInfo) -> Seq<char> {
    header_text(definition.name@, definition.parameters@, definition.parameters@.len() as int) + seq![
        ' ',
        '=',
    ] + block_text(
        Seq::new(definition.lines@.len(), |i: int| line_model_text(definition.lines@[i]@)),
        definition.lines@.len() as int,
    )
}

impl DefinitionInfo {
    /// The text of the definition.
    pub fn text(&self) -> (r: String)
        ensures
            r@ == definition_text(*self),
    {
        let mut r = with_words(self.name.clone(), &self.parameters);
        r.append(" =");
        proof {
            reveal_strlit(" =");
            reveal_strlit("\n    ");
            assert(" ="@ =~= seq![' ', '=']);
            assert("\n    "@ =~= seq!['\n', ' ', ' ', ' ', ' ']);
        }
        let ghost start = r@;
        let ghost lines = Seq::new(self.lines@.len(), |i: int| line_model_text(self.lines@[i]@));
        let mut i: usize = 0;
        while i < self.lines.len()
            invariant
                i <= self.lines.len(),
                "\n    "@ == seq!['\n', ' ', ' ', ' ', ' '],
                lines == Seq::new(self.lines@.len(), |i: int| line_model_text(self.lines@[i]@)),
                r@ == start + block_text(lines, i as int),
            decreases self.lines.len() - i,
        {
            r.append("\n    ");
            match &self.lines[i] {
                Line::Blank => {},
                Line::Node(node) => {
                    r.append(node.text().as_str());
                },
                Line::Other(text) => {
                    r.append(text.as_str());
                },
            }
            proof {
                assert(r@ =~= start + block_text(lines, i as int + 1));
            }
            i = i + 1;
        }
        r
    }
}

// ---------------------------------------------------------------------------
// Collapser
// ---------------------------------------------------------------------------

/// Result of running node collapse algorithm. Describes update to the
/// refactored definition.
#[derive(Clone, Debug, PartialEq, Eq)]
pub struct Collapsed {
    /// New contents of the refactored definition.
    pub updated_definition: DefinitionInfo,
    /// Contents of the new definition that should be placed next to the
    /// refactored one.
    pub new_method: ToAdd,
    /// Identifier of the collapsed node in the updated definition.
    pub collapsed_node: u128,
}

/// Helper type that stores some common data used for collapsing algorithm
/// and implements its logic.
#[derive(Debug)]
pub struct Collapser {
    /// The graph of definition where the node collapsing takes place.
    pub graph: GraphHelper,
    /// Information about nodes that are extracted into a separate
    /// definition.
    pub extracted: Extracted,
    /// Which node from the refactored graph should be replaced with a call
    /// to a extracted method. This only exists because we care about this
    /// node line's position (not its state).
    pub replaced_node: u128,
}

/// What is to be done with a line: a line that is no selected node is kept;
/// the selected node that is replaced gets the call of the new method as
/// its expression, and loses its pattern if nothing flows out of the new
/// method; every other selected node is removed.
pub open spec fn disposition_of(
    line: Line,
    selected: Set<u128>,
    replaced_node: u128,
    has_output: bool,
    call: Seq<char>,
) -> Option<NodeInfoModel> {
    match line {
        Line::Node(node) => if selected.contains(node.id) && node.id == replaced_node {
            Some(
                NodeInfoModel {
                    id: node.id,
                    pattern: if has_output {
                        text_of(node.pattern)
                    } else {
                        None
                    },
                    expression: call,
                },
            )
        } else {
            None
        },
        _ => None,
    }
}

/// Whether a line is kept as it is.
pub open spec fn is_kept(line: Line, selected: Set<u128>) -> bool {
    match line {
        Line::Node(node) => !selected.contains(node.id),
        _ => true,
    }
}

impl Collapser {
    /// Does some early pre-processing and gathers common data used in
    /// various parts of the refactoring algorithm.
    pub fn new(graph: GraphInfo, selected_nodes: &Vec<u128>) -> (r: Result<Self, CollapseError>)
        ensures
            match first_unknown(graph.source.lines@, selected_nodes@, selected_nodes@.len() as int) {
                Some(i) => r matches Err(e) && e@ == Failure::CannotResolveConnectionEndpoint(selected_nodes@[i]),
                None => match flow_of(
                    graph.source.lines@,
                    selected_nodes@.to_set(),
                    graph.connections@,
                    graph.connections@.len() as int,
                ) {
                    Err(failure) => r matches Err(e) && e@ == failure,
                    Ok(flow) => if selected_nodes@.len() == 0 {
                        r matches Err(e) && e@ == Failure::NoNodesSelected
                    } else {
                        r matches Ok(collapser) && {
                            &&& collapser.graph.info == graph
                            &&& collapser.wf()
                            &&& collapser.extracted.selected_nodes@ == selected_nodes@
                            &&& node_models(collapser.extracted.selected_lines@) == selected_models(
                                graph.source.lines@,
                                selected_nodes@,
                            )
                            &&& collapser.extracted.selected_nodes_set@ == selected_nodes@.to_set()
                            &&& texts(collapser.extracted.inputs@) == flow.inputs
                            &&& text_of(collapser.extracted.output) == flow.output
                            &&& collapser.replaced_node == (match flow.output_node {
                                Some(node) => node,
                                None => selected_nodes@.last(),
                            })
                        }
                    },
                },
            },
    {
        let graph = GraphHelper::new(graph);
        let extracted = match Extracted::new(&graph, selected_nodes) {
            Err(e) => {
                return Err(e);
            },
            Ok(extracted) => extracted,
        };
        if extracted.selected_nodes.len() == 0 {
            return Err(CollapseError::NoNodesSelected(NoNodesSelected));
        }
        let last_selected = extracted.selected_nodes[extracted.selected_nodes.len() - 1];
        let replaced_node = match extracted.output_node {
            Some(node) => node,
            None => last_selected,
        };
        proof {
            assert(node_models(extracted.selected_lines@).len() == selected_nodes@.len());
        }
        Ok(Collapser { graph, extracted, replaced_node })
    }

    /// At least one node is selected.
    pub open spec fn wf(&self) -> bool {
        self.extracted.selected_lines@.len() > 0
    }

    /// Generate the expression that calls the extracted method definition.
    ///
    /// Does not include any pattern for assigning the resulting value.
    pub fn call_to_extracted(&self, extracted: &ToAdd) -> (r: String)
        ensures
            r@ == call_text(
                extracted.name@,
                extracted.explicit_parameter_names@,
                extracted.explicit_parameter_names@.len() as int,
            ),
    {
        let mut r = String::from_str("here.");
        r.append(extracted.name.as_str());
        proof {
            reveal_strlit("here.");
            assert("here."@ =~= seq!['h', 'e', 'r', 'e', '.']);
        }
        let mut i: usize = 0;
        while i < extracted.explicit_parameter_names.len()
            invariant
                i <= extracted.explicit_parameter_names.len(),
                r@ == call_text(extracted.name@, extracted.explicit_parameter_names@, i as int),
            decreases extracted.explicit_parameter_names.len() - i,
        {
            r.append(" ");
            r.append(extracted.explicit_parameter_names[i].as_str());
            proof {
                reveal_strlit(" ");
                assert(" "@ =~= seq![' ']);
            }
            i = i + 1;
        }
        r
    }

    /// Assign to a line from refactored definition one of 3 dispositions:
    /// 1) Lines that are kept intact -- not belonging to selected nodes;
    /// 2) Lines that are extracted and removed -- all selected nodes, except:
    /// 3) Line that introduces output of the extracted function (if present
    ///    at all) -> its expression shall be replaced with a call to the
    ///    extracted function. If there is no usage of the extracted function
    ///    output, its invocation should be placed in place of the last
    ///    extracted line.
    pub fn rewrite_line(&self, line: &Line, extracted_definition: &ToAdd) -> (r: LineDisposition)
        ensures
            is_kept(*line, self.extracted.selected_nodes_set@) ==> r is Keep,
            !is_kept(*line, self.extracted.selected_nodes_set@) ==> match disposition_of(
                *line,
                self.extracted.selected_nodes_set@,
                self.replaced_node,
                self.extracted.output is Some,
                call_text(
                    extracted_definition.name@,
                    extracted_definition.explicit_parameter_names@,
                    extracted_definition.explicit_parameter_names@.len() as int,
                ),
            ) {
                Some(node) => r matches LineDisposition::Replace(replaced) && replaced@ == node,
                None => r is Remove,
            },
    {
        match line {
            Line::Node(node_info) => {
                let id = node_info.id;
                if !self.extracted.is_selected(id) {
                    LineDisposition::Keep
                } else if id == self.replaced_node {
                    let pattern = if self.extracted.output.is_none() {
                        None
                    } else {
                        match &node_info.pattern {
                            Some(pattern) => Some(pattern.clone()),
                            None => None,
                        }
                    };
                    let expression = self.call_to_extracted(extracted_definition);
                    LineDisposition::Replace(NodeInfo { id, pattern, expression })
                } else {
                    LineDisposition::Remove
                }
            },
            // We leave lines without nodes (blank lines) intact.
            _ => LineDisposition::Keep,
        }
    }

    /// Run the collapsing refactoring on this input.
    pub fn collapse(&self, name: String) -> (r: Collapsed)
        requires
            self.wf(),
        ensures
            r.collapsed_node == self.replaced_node,
            r.new_method.name == name,
            rising(r.new_method.explicit_parameter_names@),
            text_set(
                r.new_method.explicit_parameter_names@,
                r.new_method.explicit_parameter_names@.len() as int,
            ) == text_set(self.extracted.inputs@, self.extracted.inputs@.len() as int),
            r.new_method.body_head@ == self.extracted.selected_lines@[0]@,
            optional_texts(r.new_method.body_tail@) == body_tail_of(
                node_models(self.extracted.selected_lines@),
                text_of(self.extracted.output),
            ),
            r.updated_definition.name@ == self.graph.info.source.name@,
            texts(r.updated_definition.parameters@) == texts(self.graph.info.source.parameters@),
            exists|dispositions: Seq<LineDisposition>|
                {
                    &&& dispositions.len() == self.graph.info.source.lines@.len()
                    &&& line_models(r.updated_definition.lines@) == rewritten(
                        self.graph.info.source.lines@,
                        dispositions,
                        dispositions.len() as int,
                    )
                    &&& forall|i: int|
                        0 <= i < dispositions.len() ==> self.disposes(
                            self.graph.info.source.lines@[i],
                            r.new_method,
                            #[trigger] dispositions[i],
                        )
                },
    {
        let new_method = self.extracted.generate(name);
        let mut dispositions: Vec<LineDisposition> = Vec::new();
        let mut i: usize = 0;
        while i < self.graph.info.source.lines.len()
            invariant
                i <= self.graph.info.source.lines.len(),
                dispositions@.len() == i,
                forall|k: int|
                    0 <= k < i ==> self.disposes(
                        self.graph.info.source.lines@[k],
                        new_method,
                        #[trigger] dispositions@[k],
                    ),
            decreases self.graph.info.source.lines.len() - i,
        {
            let disposition = self.rewrite_line(&self.graph.info.source.lines[i], &new_method);
            dispositions.push(disposition);
            i = i + 1;
        }
        let updated_definition = self.graph.rewrite_definition(&dispositions);
        let collapsed_node = self.replaced_node;
        Collapsed { new_method, updated_definition, collapsed_node }
    }

    /// The disposition is what `rewrite_line` gives for the line.
    pub open spec fn disposes(&self, line: Line, method: ToAdd, disposition: LineDisposition) -> bool {
        if is_kept(line, self.extracted.selected_nodes_set@) {
            disposition is Keep
        } else {
            match disposition_of(
                line,
                self.extracted.selected_nodes_set@,
                self.replaced_node,
                self.extracted.output is Some,
                call_text(
                    method.name@,
                    method.explicit_parameter_names@,
                    method.explicit_parameter_names@.len() as int,
                ),
            ) {
                Some(node) => disposition matches LineDisposition::Replace(replaced) && replaced@ == node,
                None => disposition is Remove,
            }
        }
    }
}

/// Collapses the selected nodes of the graph into a new method with the
/// given name: the description of the new method, and the definition in
/// which a call of the new method stands in place of the nodes.
pub fn collapse(graph: GraphInfo, selected_nodes: &Vec<u128>, name: String) -> (r: Result<Collapsed, CollapseError>)
    ensures
        match first_unknown(graph.source.lines@, selected_nodes@, selected_nodes@.len() as int) {
            Some(i) => r matches Err(e) && e@ == Failure::CannotResolveConnectionEndpoint(selected_nodes@[i]),
            None => match flow_of(
                graph.source.lines@,
                selected_nodes@.to_set(),
                graph.connections@,
                graph.connections@.len() as int,
            ) {
                Err(failure) => r matches Err(e) && e@ == failure,
                Ok(flow) => if selected_nodes@.len() == 0 {
                    r matches Err(e) && e@ == Failure::NoNodesSelected
                } else {
                    r matches Ok(collapsed) && {
                        &&& collapsed.new_method.name == name
                        &&& collapsed.collapsed_node == (match flow.output_node {
                            Some(node) => node,
                            None => selected_nodes@.last(),
                        })
                        &&& rising(collapsed.new_method.explicit_parameter_names@)
                        &&& forall|t: Seq<char>|
                            #![auto]
                            text_set(
                                collapsed.new_method.explicit_parameter_names@,
                                collapsed.new_method.explicit_parameter_names@.len() as int,
                            ).contains(t) <==> flow.inputs.contains(t)
                        &&& collapsed.new_method.body_head@ == node_with(graph.source.lines@, selected_nodes@[0])
                        &&& collapsed.updated_definition.name@ == graph.source.name@
                    }
                },
            },
        },
{
    match Collapser::new(graph, selected_nodes) {
        Err(e) => Err(e),
        Ok(collapser) => {
            let collapsed = collapser.collapse(name);
            proof {
                assert(node_models(collapser.extracted.selected_lines@)[0] == collapser.extracted.selected_lines@[0]@);
                assert(selected_models(graph.source.lines@, selected_nodes@)[0] == node_with(
                    graph.source.lines@,
                    selected_nodes@[0],
                ));
                assert forall|t: Seq<char>|
                    #![auto]
                    text_set(collapser.extracted.inputs@, collapser.extracted.inputs@.len() as int).contains(t)
                        <==> texts(collapser.extracted.inputs@).contains(t) by {
                    lemma_text_set(collapser.extracted.inputs@, collapser.extracted.inputs@.len() as int, t);
                    if texts(collapser.extracted.inputs@).contains(t) {
                        let i = choose|i: int|
                            0 <= i < texts(collapser.extracted.inputs@).len() && texts(
                                collapser.extracted.inputs@,
                            )[i] == t;
                        assert(collapser.extracted.inputs@[i]@ == t);
                    }
                    if text_set(collapser.extracted.inputs@, collapser.extracted.inputs@.len() as int).contains(t) {
                        let i = choose|i: int|
                            0 <= i < collapser.extracted.inputs@.len() && (
                            #[trigger] collapser.extracted.inputs@[i])@ == t;
                        assert(texts(collapser.extracted.inputs@)[i] == t);
                    }
                }
            }
            Ok(collapsed)
        },
    }
}

} // verus!
