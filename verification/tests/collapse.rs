use reactive_core::collapse::CannotResolveConnectionEndpoint;
use reactive_core::collapse::collapse;
use reactive_core::collapse::CollapseError;
use reactive_core::collapse::Collapser;
use reactive_core::collapse::Connection;
use reactive_core::collapse::DefinitionInfo;
use reactive_core::collapse::Endpoint;
use reactive_core::collapse::EndpointIdentifierCannotBeResolved;
use reactive_core::collapse::Extracted;
use reactive_core::collapse::GraphHelper;
use reactive_core::collapse::GraphInfo;
use reactive_core::collapse::Line;
use reactive_core::collapse::LineDisposition;
use reactive_core::collapse::MultipleOutputIdentifiers;
use reactive_core::collapse::NodeInfo;
use reactive_core::collapse::NoNodesSelected;
use reactive_core::text_order::insert_rising;
use reactive_core::text_order::sorted_unique;

/// A node for a line of code: `pattern = expression` or `expression`.
fn node(id: u128, code: &str) -> Line {
    let (pattern, expression) = match code.split_once(" = ") {
        Some((pattern, expression)) => (Some(pattern.to_string()), expression.to_string()),
        None => (None, code.to_string()),
    };
    Line::Node(NodeInfo { id, pattern, expression })
}

/// A connection that carries `identifier` from the node `from` to the node `to`.
fn connection(from: u128, to: u128, identifier: &str) -> Connection {
    Connection {
        source: Endpoint { node: from, crumbs: vec![0], identifier: Some(identifier.to_string()) },
        destination: Endpoint { node: to, crumbs: vec![1, 0], identifier: Some(identifier.to_string()) },
    }
}

fn graph(name: &str, lines: &[&str], connections: Vec<Connection>) -> GraphInfo {
    let lines = lines.iter().enumerate().map(|(i, code)| node(i as u128 + 1, code)).collect();
    GraphInfo {
        source: DefinitionInfo { name: name.to_string(), parameters: vec![], lines },
        connections,
    }
}

struct Case {
    refactored_name: &'static str,
    introduced_name: &'static str,
    initial_method_lines: Vec<&'static str>,
    connections: Vec<Connection>,
    extracted_lines: std::ops::Range<usize>,
    expected_generated: &'static str,
    expected_refactored: &'static str,
}

impl Case {
    fn run(&self) {
        let graph = graph(self.refactored_name, &self.initial_method_lines, self.connections.clone());
        let selected_nodes: Vec<u128> = self.extracted_lines.clone().map(|i| i as u128 + 1).collect();
        let collapsed = collapse(graph, &selected_nodes, self.introduced_name.to_string()).unwrap();
        let new_method = collapsed.new_method.text();
        let new_main = collapsed.updated_definition.text();
        assert_eq!(new_method, self.expected_generated);
        assert_eq!(new_main, self.expected_refactored);
    }
}

#[test]
fn test_collapse() {
    let introduced_name = "custom_new";
    let refactored_name = "custom_old";
    // custom_old =
    //     a = 1
    //     b = 2
    //     c = A + B
    //     d = a + b
    //     c + 7
    let initial_method_lines = vec!["a = 1", "b = 2", "c = A + B", "d = a + b", "c + 7"];
    let connections = vec![connection(1, 4, "a"), connection(2, 4, "b"), connection(3, 5, "c")];
    let extracted_lines = 1..4;
    let expected_generated = r"custom_new a =
    b = 2
    c = A + B
    d = a + b
    c";
    let expected_refactored = r"custom_old =
    a = 1
    c = here.custom_new a
    c + 7";

    let mut case = Case {
        refactored_name,
        introduced_name,
        initial_method_lines,
        connections,
        extracted_lines,
        expected_generated,
        expected_refactored,
    };
    case.run();

    // Check that refactoring a single assignment line:
    // 1) Maintains the assignment and the introduced name for the value in the extracted
    //    method;
    // 2) That invocation appears in the extracted node's place but has no assignment.
    case.extracted_lines = 3..4;
    case.expected_generated = r"custom_new a b =
    d = a + b";
    case.expected_refactored = r"custom_old =
    a = 1
    b = 2
    c = A + B
    here.custom_new a b
    c + 7";
    case.run();

    // Check that when refactoring a single non-assignment line:
    // 1) the single extracted expression is an inline body of the generated method;
    // 2) the invocation appears in the extracted node's place but has no assignment.
    case.initial_method_lines = vec!["a = 1", "b = 2", "c = A + B", "a + b", "c + 7"];
    case.extracted_lines = 3..4;
    case.expected_generated = r"custom_new a b = a + b";
    case.expected_refactored = r"custom_old =
    a = 1
    b = 2
    c = A + B
    here.custom_new a b
    c + 7";
    case.run();

    // Check that:
    // 1) method with no arguments can be extracted;
    // 2) method with result used multiple times can be extracted.
    case.initial_method_lines = vec!["c = 50", "c + c + 10"];
    case.connections = vec![connection(1, 2, "c"), connection(1, 2, "c")];
    case.extracted_lines = 0..1;
    case.expected_generated = r"custom_new =
    c = 50
    c";
    case.expected_refactored = r"custom_old =
    c = here.custom_new
    c + c + 10";
    case.run();
}

#[test]
fn collapse_errors() {
    let lines = ["a = 1", "b = 2", "a + b", "b + 1"];
    let ok = vec![connection(1, 3, "a"), connection(2, 3, "b"), connection(2, 4, "b")];

    let none: Vec<u128> = vec![];
    assert_eq!(
        collapse(graph("main", &lines, ok.clone()), &none, "f".to_string()),
        Err(CollapseError::NoNodesSelected(NoNodesSelected))
    );
    assert_eq!(
        collapse(graph("main", &lines, ok.clone()), &vec![1, 9, 8], "f".to_string()),
        Err(CollapseError::CannotResolveConnectionEndpoint(CannotResolveConnectionEndpoint(9)))
    );
    // a connection from a node that the graph does not have
    let dangling = vec![connection(7, 3, "x")];
    assert_eq!(
        collapse(graph("main", &lines, dangling), &vec![3], "f".to_string()),
        Err(CollapseError::CannotResolveConnectionEndpoint(CannotResolveConnectionEndpoint(7)))
    );
    // a connection whose source is no identifier
    let mut blind = ok.clone();
    blind[1].source.identifier = None;
    assert_eq!(
        collapse(graph("main", &lines, blind), &vec![3], "f".to_string()),
        Err(CollapseError::EndpointIdentifierCannotBeResolved(EndpointIdentifierCannotBeResolved(2)))
    );
    // two identifiers flow out of the selection
    assert_eq!(
        collapse(graph("main", &lines, ok.clone()), &vec![1, 2], "f".to_string()),
        Err(CollapseError::MultipleOutputIdentifiers(MultipleOutputIdentifiers("b".to_string(), "a".to_string())))
    );
}

#[test]
fn extracted_flow_and_lookup() {
    let lines = ["a = 1", "b = 2", "c = a + b", "c + a"];
    let connections =
        vec![connection(1, 3, "a"), connection(2, 3, "b"), connection(3, 4, "c"), connection(1, 4, "a")];
    let helper = GraphHelper::new(graph("main", &lines, connections.clone()));
    assert_eq!(helper.lookup_node(2).map(|n| n.expression.clone()), Ok("2".to_string()));
    assert_eq!(helper.lookup_node(5), Err(CannotResolveConnectionEndpoint(5)));
    assert_eq!(helper.connection_variable(&connections[1]), Ok("b".to_string()));
    assert_eq!(helper.endpoint_identifier(&connections[2].destination), Ok("c".to_string()));

    let extracted = Extracted::new(&helper, &vec![3]).unwrap();
    assert_eq!(extracted.inputs, vec!["a".to_string(), "b".to_string()]);
    assert_eq!(extracted.output, Some("c".to_string()));
    assert_eq!(extracted.output_node, Some(3));
    assert!(extracted.is_selected(3));
    assert!(!extracted.is_selected(1));
    assert_eq!(extracted.return_line(), Some("c".to_string()));

    let method = extracted.generate("sum".to_string());
    assert_eq!(method.explicit_parameter_names, vec!["a".to_string(), "b".to_string()]);
    assert_eq!(method.text(), "sum a b =\n    c = a + b\n    c");
}

#[test]
fn collapser_rewrites_lines() {
    let lines = ["a = 1", "b = a", "c = b", "c"];
    let connections = vec![connection(1, 2, "a"), connection(2, 3, "b"), connection(3, 4, "c")];
    let collapser = Collapser::new(graph("main", &lines, connections), &vec![2, 3]).unwrap();
    assert_eq!(collapser.replaced_node, 3);
    let method = collapser.extracted.generate("f".to_string());
    assert_eq!(collapser.call_to_extracted(&method), "here.f a");
    assert_eq!(collapser.rewrite_line(&node(1, "a = 1"), &method), LineDisposition::Keep);
    assert_eq!(collapser.rewrite_line(&node(2, "b = a"), &method), LineDisposition::Remove);
    assert_eq!(
        collapser.rewrite_line(&node(3, "c = b"), &method),
        LineDisposition::Replace(NodeInfo { id: 3, pattern: Some("c".to_string()), expression: "here.f a".to_string() })
    );
    assert_eq!(collapser.rewrite_line(&Line::Blank, &method), LineDisposition::Keep);
    assert_eq!(collapser.rewrite_line(&Line::Other("# note".to_string()), &method), LineDisposition::Keep);
    let collapsed = collapser.collapse("f".to_string());
    assert_eq!(collapsed.collapsed_node, 3);
    assert_eq!(collapsed.updated_definition.text(), "main =\n    a = 1\n    c = here.f a\n    c");
}

#[test]
fn parameters_are_sorted_and_unique() {
    let names: Vec<String> = ["b", "a", "b", "ab", "", "B", "é", "a"].iter().map(|s| s.to_string()).collect();
    let sorted = sorted_unique(&names);
    assert_eq!(sorted, vec!["", "B", "a", "ab", "b", "é"]);
    let mut list = sorted;
    insert_rising(&mut list, "aa".to_string());
    insert_rising(&mut list, "a".to_string());
    assert_eq!(list, vec!["", "B", "a", "aa", "ab", "b", "é"]);
}
