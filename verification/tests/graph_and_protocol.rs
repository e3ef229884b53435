use std::sync::Arc;

use gcore::ast::{Edge, EdgeKind, Language, Node, NodeBuilder, NodeId, NodeKind, Span};
use gcore::graph::{GraphQuery, GraphStore};
use gcore::prompts::PromptContent;
use gcore::tools::parse_node_id;
use gcore::transport::{JsonRpcRequest, JsonRpcResponse, TransportMessage};

fn object_with(key: &str, value: serde_json::Value) -> serde_json::Value {
    let mut map = serde_json::Map::new();
    map.insert(key.to_string(), value);
    serde_json::Value::Object(map)
}

#[test]
fn test_transport_message_methods() {
    let request = JsonRpcRequest::new(
        serde_json::Value::Number(1.into()),
        "test_method".to_string(),
        None,
    );
    let msg = TransportMessage::Request(request);

    assert_eq!(msg.jsonrpc_version(), "2.0");
    assert_eq!(msg.method(), Some("test_method"));
    assert!(msg.id().is_some());
}

#[test]
fn test_transport_message_response() {
    let response = JsonRpcResponse::success(
        serde_json::Value::Number(1.into()),
        object_with("result", serde_json::Value::String("success".to_string())),
    );
    let msg = TransportMessage::Response(response);

    assert_eq!(msg.jsonrpc_version(), "2.0");
    assert_eq!(msg.method(), None);
    assert!(msg.id().is_some());
}

#[test]
fn test_prompt_content_text() {
    let content = PromptContent::Text { text: "Hello, world!".to_string() };
    let copy = content.clone();
    match copy {
        PromptContent::Text { text } => assert_eq!(text, "Hello, world!"),
        _ => panic!("Expected text content"),
    }
}

#[test]
fn test_prompt_content_image() {
    let content = PromptContent::Image {
        data: "base64encodeddata".to_string(),
        mime_type: "image/png".to_string(),
    };
    let copy = content.clone();
    if let PromptContent::Image { data, mime_type } = copy {
        assert_eq!(data, "base64encodeddata");
        assert_eq!(mime_type, "image/png");
    } else {
        panic!("Expected image content");
    }
}

#[test]
fn test_parse_node_id_valid() {
    let valid_hex = "deadbeef12345678";
    let result = parse_node_id(valid_hex);
    match result {
        Ok(_) => assert!(true),
        Err(_) => assert!(true),
    }
}

#[test]
fn test_parse_node_id_invalid() {
    let invalid_hex = "not_hex";
    let result = parse_node_id(invalid_hex);
    assert!(result.is_err());
}

#[test]
fn test_node_id_edge_cases() {
    let span = Span::new(0, 10, 1, 1, 1, 11);
    let id1 = NodeId::new("repo", "", &span, &NodeKind::Module);
    assert!(!id1.to_hex().is_empty());

    let id2 = NodeId::new("repo", "src/@types/index.d.ts", &span, &NodeKind::Module);
    assert!(!id2.to_hex().is_empty());

    let id3 = NodeId::new("repo", "src/文件.js", &span, &NodeKind::Module);
    assert!(!id3.to_hex().is_empty());
}

#[test]
fn test_node_with_methods() {
    let span = Span::new(0, 10, 1, 1, 1, 11);
    let node = Node::new(
        "test_repo",
        NodeKind::Function,
        "test_func".to_string(),
        Language::JavaScript,
        "test.js".to_string(),
        span,
    )
    .with_signature("(a: number, b: number) => number".to_string())
    .with_metadata(object_with("async", serde_json::Value::Bool(true)));

    assert_eq!(node.signature, Some("(a: number, b: number) => number".to_string()));
    assert_eq!(node.metadata["async"], true);
}

#[test]
fn test_node_builder() {
    let span = Span::new(0, 10, 1, 1, 1, 11);
    let node = NodeBuilder::new("test_repo", NodeKind::Function)
        .name("myFunction")
        .language(Language::TypeScript)
        .file("src/index.ts")
        .span(span.clone())
        .signature("() => void")
        .metadata(object_with("exported", serde_json::Value::Bool(true)))
        .build();

    assert_eq!(node.name, "myFunction");
    assert_eq!(node.lang, Language::TypeScript);
    assert_eq!(node.file, "src/index.ts");
    assert_eq!(node.span, span);
    assert_eq!(node.signature, Some("() => void".to_string()));
    assert_eq!(node.metadata["exported"], true);
}

#[test]
fn test_edge_creation_and_serialization() {
    let span1 = Span::new(0, 10, 1, 1, 1, 11);
    let span2 = Span::new(20, 30, 2, 1, 2, 11);

    let id1 = NodeId::new("repo", "file.js", &span1, &NodeKind::Function);
    let id2 = NodeId::new("repo", "file.js", &span2, &NodeKind::Function);

    let edge = Edge::new(id1, id2, EdgeKind::Calls);
    assert_eq!(edge.source, id1);
    assert_eq!(edge.target, id2);
    assert_eq!(edge.kind, EdgeKind::Calls);

    let copy = edge.clone();
    assert_eq!(edge, copy);

    let edge_id = edge.id();
    assert!(edge_id.contains(&id1.to_string()));
    assert!(edge_id.contains(&id2.to_string()));
    assert!(edge_id.contains("Calls"));
}

#[test]
fn test_display_traits() {
    assert_eq!(NodeKind::Function.to_string(), "Function");
    assert_eq!(NodeKind::Module.to_string(), "Module");

    assert_eq!(EdgeKind::Calls.to_string(), "CALLS");
    assert_eq!(EdgeKind::Imports.to_string(), "IMPORTS");

    assert_eq!(Language::JavaScript.to_string(), "JavaScript");
    assert_eq!(Language::Cpp.to_string(), "C++");

    let span = Span::new(0, 10, 1, 5, 2, 15);
    assert_eq!(span.to_string(), "1:2-5:15");

    let node = Node::new(
        "repo",
        NodeKind::Function,
        "myFunc".to_string(),
        Language::JavaScript,
        "test.js".to_string(),
        span.clone(),
    );
    let display = node.to_string();
    assert!(display.contains("JavaScript"));
    assert!(display.contains("Function"));
    assert!(display.contains("myFunc"));
    assert!(display.contains("test.js"));

    let id1 = NodeId::new("repo", "file.js", &span, &NodeKind::Function);
    let id2 = NodeId::new("repo", "file.js", &span, &NodeKind::Variable);
    let edge = Edge::new(id1, id2, EdgeKind::Reads);
    let edge_display = edge.to_string();
    assert!(edge_display.contains("READS"));
}

fn create_test_node(name: &str, kind: NodeKind, file: &str) -> Node {
    Node::new(
        "test_repo",
        kind,
        name.to_string(),
        Language::Python,
        file.to_string(),
        Span::new(0, 10, 1, 1, 1, 11),
    )
}

fn create_test_node_with_span(name: &str, kind: NodeKind, file: &str, start: usize, end: usize) -> Node {
    Node::new(
        "test_repo",
        kind,
        name.to_string(),
        Language::Python,
        file.to_string(),
        Span::new(start, end, 1, 1, 1, 11),
    )
}

#[test]
fn test_graph_store_basic_operations() {
    let mut graph = GraphStore::new();

    let node1 = create_test_node("function1", NodeKind::Function, "test.py");
    let node2 = create_test_node("function2", NodeKind::Function, "test.py");

    graph.add_node(node1.clone());
    graph.add_node(node2.clone());

    assert_eq!(graph.get_node(&node1.id).unwrap().id, node1.id);
    assert_eq!(graph.get_node(&node2.id).unwrap().id, node2.id);

    let edge = Edge::new(node1.id, node2.id, EdgeKind::Calls);
    graph.add_edge(edge.clone());

    let outgoing = graph.get_outgoing_edges(&node1.id);
    assert_eq!(outgoing.len(), 1);
    assert_eq!(outgoing[0], edge);

    let incoming = graph.get_incoming_edges(&node2.id);
    assert_eq!(incoming.len(), 1);
    assert_eq!(incoming[0], edge);
}

#[test]
fn test_graph_query_path_finding() {
    let mut graph = GraphStore::new();

    let node1 = create_test_node_with_span("function1", NodeKind::Function, "test.py", 0, 10);
    let node2 = create_test_node_with_span("function2", NodeKind::Function, "test.py", 20, 30);
    let node3 = create_test_node_with_span("function3", NodeKind::Function, "test.py", 40, 50);

    graph.add_node(node1.clone());
    graph.add_node(node2.clone());
    graph.add_node(node3.clone());

    graph.add_edge(Edge::new(node1.id, node2.id, EdgeKind::Calls));
    graph.add_edge(Edge::new(node2.id, node3.id, EdgeKind::Calls));

    let query = GraphQuery::new(Arc::new(graph));
    let path = query.find_path(&node1.id, &node3.id, None);
    assert!(path.is_some());

    let path = path.unwrap();
    assert_eq!(path.distance, 2);
    assert_eq!(path.path, vec![node1.id, node2.id, node3.id]);
}

#[test]
fn test_symbol_search() {
    let mut graph = GraphStore::new();

    let node1 = create_test_node("test_function", NodeKind::Function, "test.py");
    let node2 = create_test_node("another_function", NodeKind::Function, "test.py");
    let node3 = create_test_node("test_class", NodeKind::Class, "test.py");

    graph.add_node(node1.clone());
    graph.add_node(node2.clone());
    graph.add_node(node3.clone());

    let query = GraphQuery::new(Arc::new(graph));
    let results = query.search_symbols("test", None, None);
    assert_eq!(results.len(), 2);

    let results = query.search_symbols("test", Some(vec![NodeKind::Function]), None);
    assert_eq!(results.len(), 1);
}

#[test]
fn removing_a_new_node_undoes_adding_it() {
    let mut graph = GraphStore::new();
    let a = create_test_node_with_span("a", NodeKind::Function, "one.py", 0, 10);
    let b = create_test_node_with_span("b", NodeKind::Function, "one.py", 20, 30);
    graph.add_node(a.clone());
    graph.add_node(b.clone());
    graph.add_edge(Edge::new(a.id, b.id, EdgeKind::Calls));
    let before_stats = graph.get_stats();

    let c = create_test_node_with_span("c", NodeKind::Class, "two.py", 40, 50);
    graph.add_node(c.clone());
    assert!(graph.get_node(&c.id).is_some());
    assert_eq!(graph.remove_node(&c.id).unwrap().id, c.id);

    assert!(graph.get_node(&c.id).is_none());
    let in_one: Vec<_> = graph.get_nodes_in_file("one.py").iter().map(|n| n.id).collect();
    assert_eq!(in_one, vec![a.id, b.id]);
    assert!(graph.get_nodes_in_file("two.py").is_empty());
    assert!(graph.get_nodes_by_name("c").is_empty());
    assert_eq!(graph.get_outgoing_edges(&a.id).len(), 1);
    assert_eq!(graph.get_incoming_edges(&b.id).len(), 1);
    let after_stats = graph.get_stats();
    assert_eq!(after_stats.total_nodes, before_stats.total_nodes);
    assert_eq!(after_stats.total_edges, before_stats.total_edges);
}

#[test]
fn edge_ids_differ_when_node_ids_share_a_prefix() {
    let mut a = [7u8; 16];
    let mut b = [7u8; 16];
    a[15] = 1;
    b[15] = 2;
    let x = NodeId(a);
    let y = NodeId(b);
    let z = NodeId([9u8; 16]);
    let e1 = Edge::new(x, z, EdgeKind::Calls);
    let e2 = Edge::new(y, z, EdgeKind::Calls);
    assert_eq!(x.to_string(), y.to_string());
    assert_ne!(e1.id(), e2.id());
    assert_eq!(e1.id(), format!("{}>{}>:Calls", x.to_hex(), z.to_hex()));
    assert_ne!(Edge::new(x, z, EdgeKind::Reads).id(), e1.id());
}

#[test]
fn symbol_search_takes_regular_expressions() {
    let mut graph = GraphStore::new();
    graph.add_node(create_test_node_with_span("get_user", NodeKind::Function, "a.py", 0, 10));
    graph.add_node(create_test_node_with_span("set_user", NodeKind::Function, "a.py", 20, 30));
    let query = GraphQuery::new(Arc::new(graph));
    let found = query.search_symbols("^get_", None, None);
    assert_eq!(found.len(), 1);
    assert_eq!(found[0].node.name, "get_user");
    assert_eq!(query.search_symbols("USER$", None, None).len(), 2);
    // Not a regular expression: matched as text, ignoring case.
    assert_eq!(query.search_symbols("(user", None, None).len(), 0);
    assert_eq!(query.search_symbols("_US", None, None).len(), 2);
}
