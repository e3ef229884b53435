use gcore::graph::DependencyType;
use gcore::tools::{
    invalid_dependency_type_result, list_tools, parse_dependency_type, tool_kind, unknown_tool_result,
    ListToolsParams, ToolContent, ToolKind,
};

#[test]
fn test_list_tools() {
    let result = list_tools(ListToolsParams { cursor: None });
    assert_eq!(result.tools.len(), 6);
    assert!(result.next_cursor.is_none());
    let names: Vec<String> = result.tools.iter().map(|t| t.name.clone()).collect();
    for expected in ["repository_stats", "trace_path", "explain_symbol", "find_dependencies", "find_references", "search_symbols"] {
        assert!(names.contains(&expected.to_string()));
        assert!(tool_kind(expected).is_some());
    }
}

#[test]
fn test_unknown_tool() {
    assert!(tool_kind("unknown_tool").is_none());
    let result = unknown_tool_result("unknown_tool");
    assert_eq!(result.is_error, Some(true));
    let ToolContent::Text { text } = &result.content[0];
    assert!(text.contains("Unknown tool: unknown_tool"));
}

#[test]
fn test_find_dependencies_invalid_dependency_type() {
    assert!(parse_dependency_type("invalid_type").is_none());
    let result = invalid_dependency_type_result("invalid_type");
    assert_eq!(result.is_error, Some(true));
    let ToolContent::Text { text } = &result.content[0];
    assert!(text.contains("Invalid dependency type"));
    assert!(matches!(parse_dependency_type("calls"), Some(DependencyType::Calls)));
    assert!(matches!(parse_dependency_type("direct"), Some(DependencyType::Direct)));
}

#[test]
fn test_tool_input_schemas() {
    let result = list_tools(ListToolsParams { cursor: None });
    for tool in result.tools {
        let schema_value: serde_json::Value = serde_json::from_str(&tool.input_schema).unwrap();
        assert!(schema_value.is_object());
        let schema = schema_value.as_object().unwrap();
        assert_eq!(schema.get("type").unwrap().as_str().unwrap(), "object");
        if tool.name != "repository_stats" {
            assert!(schema.contains_key("properties"));
        }
        let required = |field: &str| {
            schema
                .get("required")
                .unwrap()
                .as_array()
                .unwrap()
                .contains(&serde_json::Value::String(field.to_string()))
        };
        match tool.name.as_str() {
            "trace_path" => {
                assert!(required("source"));
                assert!(required("target"));
            }
            "explain_symbol" | "find_references" => assert!(required("symbol_id")),
            "find_dependencies" => assert!(required("target")),
            "search_symbols" => assert!(required("pattern")),
            _ => {}
        }
    }
    assert!(matches!(tool_kind("trace_path"), Some(ToolKind::TracePath)));
}
