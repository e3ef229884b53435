use std::sync::Arc;

use gcore::ast::{Edge, EdgeKind, HexError, Language, Node, NodeKind, Span};
use gcore::graph::{GraphQuery, GraphStore};
use gcore::tool_calls::{
    explain_symbol, find_dependencies, find_references, search_symbols, trace_path,
    DependencyAnswer, DependencyArgs, ExplainArgs, ReferenceArgs, SearchArgs, ToolCallError,
    TraceArgs,
};

fn node(name: &str, kind: NodeKind, file: &str, start: usize) -> Node {
    Node::new(
        "test_repo",
        kind,
        name.to_string(),
        Language::Python,
        file.to_string(),
        Span::new(start, start + 10, 1, 1, 1, 11),
    )
}

/// `main` calls `helper`, which reads `config`; `main` is in `main.py`,
/// the two others in `util.py`.
fn sample() -> (GraphQuery, Node, Node, Node) {
    let mut g = GraphStore::new();
    let main = node("main", NodeKind::Function, "main.py", 0);
    let helper = node("helper", NodeKind::Function, "util.py", 20);
    let config = node("config", NodeKind::Variable, "util.py", 40);
    g.add_node(main.clone());
    g.add_node(helper.clone());
    g.add_node(config.clone());
    g.add_edge(Edge::new(main.id, helper.id, EdgeKind::Calls));
    g.add_edge(Edge::new(helper.id, config.id, EdgeKind::Reads));
    (GraphQuery::new(Arc::new(g)), main, helper, config)
}

fn missing_name<T>(r: Result<T, ToolCallError>) -> String {
    match r {
        Err(ToolCallError::MissingParameter(p)) => p,
        _ => panic!("expected a missing parameter"),
    }
}

#[test]
fn trace_path_finds_shortest_walk() {
    let (q, main, helper, config) = sample();
    let args = TraceArgs {
        source: Some(main.id.to_hex()),
        target: Some(config.id.to_hex()),
        max_depth: None,
    };
    let p = trace_path(&q, Some(args)).unwrap().unwrap();
    assert_eq!(p.distance, 2);
    assert_eq!(p.path, vec![main.id, helper.id, config.id]);
    assert_eq!(p.edges.len(), 2);
}

#[test]
fn trace_path_respects_depth_and_direction() {
    let (q, main, _, config) = sample();
    let short = TraceArgs {
        source: Some(main.id.to_hex()),
        target: Some(config.id.to_hex()),
        max_depth: Some(1),
    };
    assert!(trace_path(&q, Some(short)).unwrap().is_none());
    let back = TraceArgs {
        source: Some(config.id.to_hex()),
        target: Some(main.id.to_hex()),
        max_depth: None,
    };
    assert!(trace_path(&q, Some(back)).unwrap().is_none());
}

#[test]
fn trace_path_argument_errors() {
    let (q, main, _, _) = sample();
    assert!(matches!(trace_path(&q, None), Err(ToolCallError::MissingArguments)));
    let no_source = TraceArgs { source: None, target: None, max_depth: None };
    assert_eq!(missing_name(trace_path(&q, Some(no_source))), "source");
    let no_target = TraceArgs { source: Some(main.id.to_hex()), target: None, max_depth: None };
    assert_eq!(missing_name(trace_path(&q, Some(no_target))), "target");
    let bad = TraceArgs {
        source: Some("abc".to_string()),
        target: Some(main.id.to_hex()),
        max_depth: None,
    };
    assert!(matches!(
        trace_path(&q, Some(bad)),
        Err(ToolCallError::InvalidNodeId(HexError::OddLength))
    ));
    let short = TraceArgs {
        source: Some(main.id.to_hex()),
        target: Some("abcd".to_string()),
        max_depth: None,
    };
    assert!(matches!(
        trace_path(&q, Some(short)),
        Err(ToolCallError::InvalidNodeId(HexError::InvalidStringLength))
    ));
}

#[test]
fn explain_symbol_with_context() {
    let (q, main, helper, config) = sample();
    let args = ExplainArgs {
        symbol_id: Some(helper.id.to_hex()),
        include_dependencies: Some(true),
        include_usages: Some(true),
    };
    let x = explain_symbol(&q, Some(args)).unwrap().unwrap();
    assert_eq!(x.node.name, "helper");
    let deps = x.dependencies.unwrap();
    assert_eq!(deps.len(), 1);
    assert_eq!(deps[0].target_node.id, config.id);
    assert_eq!(deps[0].edge_kind, EdgeKind::Reads);
    let usages = x.usages.unwrap();
    assert_eq!(usages.len(), 1);
    assert_eq!(usages[0].source_node.id, main.id);
    assert_eq!(usages[0].location.file, "main.py");
}

#[test]
fn explain_symbol_plain_and_missing() {
    let (q, main, _, _) = sample();
    let plain = ExplainArgs {
        symbol_id: Some(main.id.to_hex()),
        include_dependencies: None,
        include_usages: Some(false),
    };
    let x = explain_symbol(&q, Some(plain)).unwrap().unwrap();
    assert!(x.dependencies.is_none());
    assert!(x.usages.is_none());
    let unknown = ExplainArgs {
        symbol_id: Some("00".repeat(16)),
        include_dependencies: None,
        include_usages: None,
    };
    assert!(explain_symbol(&q, Some(unknown)).unwrap().is_none());
    let none = ExplainArgs { symbol_id: None, include_dependencies: None, include_usages: None };
    assert_eq!(missing_name(explain_symbol(&q, Some(none))), "symbol_id");
}

#[test]
fn find_dependencies_by_id_and_by_file() {
    let (q, main, helper, config) = sample();
    let by_id = DependencyArgs { target: Some(main.id.to_hex()), dependency_type: None };
    match find_dependencies(&q, Some(by_id)).unwrap() {
        DependencyAnswer::Found(d) => {
            assert_eq!(d.len(), 1);
            assert_eq!(d[0].target_node.id, helper.id);
        },
        DependencyAnswer::InvalidType => panic!("direct is a known type"),
    }
    let by_file = DependencyArgs { target: Some("util.py".to_string()), dependency_type: None };
    match find_dependencies(&q, Some(by_file)).unwrap() {
        DependencyAnswer::Found(d) => {
            assert_eq!(d.len(), 1);
            assert_eq!(d[0].target_node.id, config.id);
        },
        DependencyAnswer::InvalidType => panic!("direct is a known type"),
    }
    let calls_only = DependencyArgs {
        target: Some("util.py".to_string()),
        dependency_type: Some("calls".to_string()),
    };
    match find_dependencies(&q, Some(calls_only)).unwrap() {
        DependencyAnswer::Found(d) => assert!(d.is_empty()),
        DependencyAnswer::InvalidType => panic!("calls is a known type"),
    }
}

#[test]
fn find_dependencies_rejects_unknown_type() {
    let (q, main, _, _) = sample();
    let args = DependencyArgs {
        target: Some(main.id.to_hex()),
        dependency_type: Some("everything".to_string()),
    };
    assert!(matches!(find_dependencies(&q, Some(args)).unwrap(), DependencyAnswer::InvalidType));
    let none = DependencyArgs { target: None, dependency_type: None };
    assert_eq!(missing_name(find_dependencies(&q, Some(none))), "target");
}

#[test]
fn find_references_lists_callers() {
    let (q, main, helper, _) = sample();
    let refs = find_references(&q, Some(ReferenceArgs { symbol_id: Some(helper.id.to_hex()) })).unwrap();
    assert_eq!(refs.len(), 1);
    assert_eq!(refs[0].source_node.id, main.id);
    assert_eq!(refs[0].edge_kind, EdgeKind::Calls);
    let none = find_references(&q, Some(ReferenceArgs { symbol_id: Some(main.id.to_hex()) })).unwrap();
    assert!(none.is_empty());
    assert!(matches!(
        find_references(&q, Some(ReferenceArgs { symbol_id: Some("zz".repeat(16)) })),
        Err(ToolCallError::InvalidNodeId(HexError::InvalidHexCharacter { c: 'z', index: 0 }))
    ));
}

#[test]
fn search_symbols_by_pattern_and_kind() {
    let (q, _, _, _) = sample();
    let all = SearchArgs { pattern: Some("E".to_string()), symbol_types: None, limit: None };
    assert_eq!(search_symbols(&q, Some(all)).unwrap().len(), 1);
    let functions = SearchArgs {
        pattern: Some("".to_string()),
        symbol_types: Some(vec!["function".to_string(), "unknown".to_string()]),
        limit: None,
    };
    assert_eq!(search_symbols(&q, Some(functions)).unwrap().len(), 2);
    let capped = SearchArgs { pattern: Some("".to_string()), symbol_types: None, limit: Some(1) };
    assert_eq!(search_symbols(&q, Some(capped)).unwrap().len(), 1);
    let none = SearchArgs { pattern: None, symbol_types: None, limit: None };
    assert_eq!(missing_name(search_symbols(&q, Some(none))), "pattern");
}
