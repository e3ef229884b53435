//! MCP tools over the code graph: the catalog of tools with their input
//! schemas, the routing of tool calls, the parsing of their arguments, and
//! the gathering of dependencies for a symbol or a whole file.  The answers
//! are rendered as JSON by the caller.

use crate::ast::{hex_decode_spec, HexError, Node, NodeId, NodeKind};
use vstd::utf8::encode_utf8;
use crate::graph::{
    edges_with_target, list_at, present_nodes, DependencyType, GraphQuery, GraphView,
    SymbolDependency,
};
use crate::text::{push_str, str_eq};
use vstd::prelude::*;

verus! {

/// Tool capabilities as defined by MCP.
#[derive(Clone, Debug)]
pub struct ToolCapabilities {
    /// Whether the server emits notifications when the list changes
    pub list_changed: Option<bool>,
}

/// An MCP tool.  Its input schema is held as JSON text.
#[derive(Clone, Debug)]
pub struct Tool {
    /// Unique identifier for the tool
    pub name: String,
    /// Optional human-readable title
    pub title: Option<String>,
    /// Human-readable description
    pub description: String,
    /// JSON Schema of the expected input, as JSON text
    pub input_schema: String,
}

/// Tool content.
#[derive(Clone, Debug)]
pub enum ToolContent {
    /// Text content
    Text { text: String },
}

/// Result of a tool call.
#[derive(Clone, Debug)]
pub struct CallToolResult {
    /// Content returned by the tool
    pub content: Vec<ToolContent>,
    /// Whether the tool execution resulted in an error
    pub is_error: Option<bool>,
}

/// Parameters for listing tools.
#[derive(Clone, Debug)]
pub struct ListToolsParams {
    /// Optional cursor for pagination
    pub cursor: Option<String>,
}

/// Result of listing tools.
#[derive(Clone, Debug)]
pub struct ListToolsResult {
    /// Available tools
    pub tools: Vec<Tool>,
    /// Optional cursor for pagination
    pub next_cursor: Option<String>,
}

/// The input schema of `repository_stats`, as JSON text.
pub const REPOSITORY_STATS_SCHEMA: &'static str = "{\"type\":\"object\",\"properties\":{}}";

/// The input schema of `trace_path`, as JSON text.
pub const TRACE_PATH_SCHEMA: &'static str = "{\"type\":\"object\",\"properties\":{\"source\":{\"type\":\"string\",\"description\":\"Source symbol identifier (node ID)\"},\"target\":{\"type\":\"string\",\"description\":\"Target symbol identifier (node ID)\"},\"max_depth\":{\"type\":\"number\",\"description\":\"Maximum search depth\",\"default\":10}},\"required\":[\"source\",\"target\"]}";

/// The input schema of `explain_symbol`, as JSON text.
pub const EXPLAIN_SYMBOL_SCHEMA: &'static str = "{\"type\":\"object\",\"properties\":{\"symbol_id\":{\"type\":\"string\",\"description\":\"Symbol identifier (node ID)\"},\"include_dependencies\":{\"type\":\"boolean\",\"description\":\"Include dependency information\",\"default\":false},\"include_usages\":{\"type\":\"boolean\",\"description\":\"Include usage information\",\"default\":false}},\"required\":[\"symbol_id\"]}";

/// The input schema of `find_dependencies`, as JSON text.
pub const FIND_DEPENDENCIES_SCHEMA: &'static str = "{\"type\":\"object\",\"properties\":{\"target\":{\"type\":\"string\",\"description\":\"Symbol ID or file path to analyze\"},\"dependency_type\":{\"type\":\"string\",\"enum\":[\"direct\",\"calls\",\"imports\",\"reads\",\"writes\"],\"description\":\"Type of dependencies to find\",\"default\":\"direct\"}},\"required\":[\"target\"]}";

/// The input schema of `find_references`, as JSON text.
pub const FIND_REFERENCES_SCHEMA: &'static str = "{\"type\":\"object\",\"properties\":{\"symbol_id\":{\"type\":\"string\",\"description\":\"Symbol identifier to find references for\"},\"include_definitions\":{\"type\":\"boolean\",\"description\":\"Include symbol definitions\",\"default\":true}},\"required\":[\"symbol_id\"]}";

/// The input schema of `search_symbols`, as JSON text.
pub const SEARCH_SYMBOLS_SCHEMA: &'static str = "{\"type\":\"object\",\"properties\":{\"pattern\":{\"type\":\"string\",\"description\":\"Search pattern (supports regex)\"},\"symbol_types\":{\"type\":\"array\",\"items\":{\"type\":\"string\",\"enum\":[\"function\",\"class\",\"variable\",\"module\",\"method\"]},\"description\":\"Filter by symbol types\"},\"limit\":{\"type\":\"number\",\"description\":\"Maximum number of results\",\"default\":50}},\"required\":[\"pattern\"]}";

/// The names of the tools offered, in order.
pub open spec fn tool_names() -> Seq<Seq<char>> {
    seq![
        "repository_stats"@,
        "trace_path"@,
        "explain_symbol"@,
        "find_dependencies"@,
        "find_references"@,
        "search_symbols"@,
    ]
}

/// The input schemas of the tools, in order.
pub open spec fn tool_schemas() -> Seq<Seq<char>> {
    seq![
        REPOSITORY_STATS_SCHEMA@,
        TRACE_PATH_SCHEMA@,
        EXPLAIN_SYMBOL_SCHEMA@,
        FIND_DEPENDENCIES_SCHEMA@,
        FIND_REFERENCES_SCHEMA@,
        SEARCH_SYMBOLS_SCHEMA@,
    ]
}

/// The titles and descriptions of the tools, in order.
pub open spec fn tool_texts() -> Seq<(Seq<char>, Seq<char>)> {
    seq![
        ("Repository Statistics"@, "Get comprehensive statistics about the repository"@),
        ("Trace Execution Path"@, "Find the shortest path between two code symbols"@),
        ("Explain Symbol"@, "Provide detailed explanation of a code symbol with context"@),
        ("Find Dependencies"@, "Analyze dependencies for a code symbol or file"@),
        ("Find References"@, "Find all references to a symbol across the codebase"@),
        ("Search Symbols"@, "Search for symbols by name pattern"@),
    ]
}

fn tool(name: &str, title: &str, description: &str, schema: &str) -> (r: Tool)
    ensures
        r.name@ == name@,
        r.title matches Some(t) && t@ == title@,
        r.description@ == description@,
        r.input_schema@ == schema@,
{
    Tool {
        name: name.to_string(),
        title: Some(title.to_string()),
        description: description.to_string(),
        input_schema: schema.to_string(),
    }
}

/// The tools offered: six, each with its name, title, description and
/// input schema.
pub fn list_tools(params: ListToolsParams) -> (r: ListToolsResult)
    ensures
        r.next_cursor is None,
        r.tools@.len() == 6,
        forall|i: int|
            0 <= i < 6 ==> #[trigger] r.tools@[i].name@ == tool_names()[i]
                && r.tools@[i].input_schema@ == tool_schemas()[i]
                && r.tools@[i].description@ == tool_texts()[i].1 && (r.tools@[i].title matches Some(
                t,
            ) && t@ == tool_texts()[i].0),
{
    proof {
        reveal_strlit("repository_stats");
        reveal_strlit("trace_path");
        reveal_strlit("explain_symbol");
        reveal_strlit("find_dependencies");
        reveal_strlit("find_references");
        reveal_strlit("search_symbols");
    }
        let t0 = tool(
            "repository_stats",
            "Repository Statistics",
            "Get comprehensive statistics about the repository",
            REPOSITORY_STATS_SCHEMA,
        );
        let t1 = tool(
            "trace_path",
            "Trace Execution Path",
            "Find the shortest path between two code symbols",
            TRACE_PATH_SCHEMA,
        );
        let t2 = tool(
            "explain_symbol",
            "Explain Symbol",
            "Provide detailed explanation of a code symbol with context",
            EXPLAIN_SYMBOL_SCHEMA,
        );
        let t3 = tool(
            "find_dependencies",
            "Find Dependencies",
            "Analyze dependencies for a code symbol or file",
            FIND_DEPENDENCIES_SCHEMA,
        );
        let t4 = tool(
            "find_references",
            "Find References",
            "Find all references to a symbol across the codebase",
            FIND_REFERENCES_SCHEMA,
        );
        let t5 = tool(
            "search_symbols",
            "Search Symbols",
            "Search for symbols by name pattern",
            SEARCH_SYMBOLS_SCHEMA,
        );
    let tools = vec![t0, t1, t2, t3, t4, t5];
    assert forall|i: int|
        0 <= i < 6 implies #[trigger] tools@[i].name@ == tool_names()[i]
            && tools@[i].input_schema@ == tool_schemas()[i]
            && tools@[i].description@ == tool_texts()[i].1 && (tools@[i].title matches Some(t)
            && t@ == tool_texts()[i].0) by {}
    ListToolsResult { tools, next_cursor: None }
}

/// The tools that can be called.
#[derive(Clone, Copy, Debug, PartialEq, Eq, Structural)]
pub enum ToolKind {
    RepositoryStats,
    TracePath,
    ExplainSymbol,
    FindDependencies,
    FindReferences,
    SearchSymbols,
}

/// The tool of a name.
pub open spec fn tool_of(name: Seq<char>) -> Option<ToolKind> {
    if name == "repository_stats"@ {
        Some(ToolKind::RepositoryStats)
    } else if name == "trace_path"@ {
        Some(ToolKind::TracePath)
    } else if name == "explain_symbol"@ {
        Some(ToolKind::ExplainSymbol)
    } else if name == "find_dependencies"@ {
        Some(ToolKind::FindDependencies)
    } else if name == "find_references"@ {
        Some(ToolKind::FindReferences)
    } else if name == "search_symbols"@ {
        Some(ToolKind::SearchSymbols)
    } else {
        None
    }
}

/// The tool a call names, if it is one of those offered.
pub fn tool_kind(name: &str) -> (r: Option<ToolKind>)
    ensures
        r == tool_of(name@),
{
    if str_eq(name, "repository_stats") {
        Some(ToolKind::RepositoryStats)
    } else if str_eq(name, "trace_path") {
        Some(ToolKind::TracePath)
    } else if str_eq(name, "explain_symbol") {
        Some(ToolKind::ExplainSymbol)
    } else if str_eq(name, "find_dependencies") {
        Some(ToolKind::FindDependencies)
    } else if str_eq(name, "find_references") {
        Some(ToolKind::FindReferences)
    } else if str_eq(name, "search_symbols") {
        Some(ToolKind::SearchSymbols)
    } else {
        None
    }
}

/// A result holding one text, marked as an error or not.
pub fn text_result(text: String, is_error: bool) -> (r: CallToolResult)
    ensures
        r.content@ == seq![ToolContent::Text { text }],
        r.is_error == Some(is_error),
{
    CallToolResult { content: vec![ToolContent::Text { text }], is_error: Some(is_error) }
}

/// The error result of a call to a tool that is not offered.
pub fn unknown_tool_result(name: &str) -> (r: CallToolResult)
    ensures
        r.content@.len() == 1,
        r.content@[0] matches ToolContent::Text { text } && text@ == "Unknown tool: "@ + name@,
        r.is_error == Some(true),
{
    let mut t = String::new();
    push_str(&mut t, "Unknown tool: ");
    push_str(&mut t, name);
    text_result(t, true)
}

/// The dependency type of a name.
pub open spec fn dependency_type_of(s: Seq<char>) -> Option<DependencyType> {
    if s == "direct"@ {
        Some(DependencyType::Direct)
    } else if s == "calls"@ {
        Some(DependencyType::Calls)
    } else if s == "imports"@ {
        Some(DependencyType::Imports)
    } else if s == "reads"@ {
        Some(DependencyType::Reads)
    } else if s == "writes"@ {
        Some(DependencyType::Writes)
    } else {
        None
    }
}

/// Parses a dependency type: `direct`, `calls`, `imports`, `reads` or
/// `writes`.
pub fn parse_dependency_type(s: &str) -> (r: Option<DependencyType>)
    ensures
        r == dependency_type_of(s@),
{
    if str_eq(s, "direct") {
        Some(DependencyType::Direct)
    } else if str_eq(s, "calls") {
        Some(DependencyType::Calls)
    } else if str_eq(s, "imports") {
        Some(DependencyType::Imports)
    } else if str_eq(s, "reads") {
        Some(DependencyType::Reads)
    } else if str_eq(s, "writes") {
        Some(DependencyType::Writes)
    } else {
        None
    }
}

/// The error result for a dependency type that is not known.
pub fn invalid_dependency_type_result(s: &str) -> (r: CallToolResult)
    ensures
        r.content@.len() == 1,
        r.content@[0] matches ToolContent::Text { text } && text@ == "Invalid dependency type: "@
            + s@,
        r.is_error == Some(true),
{
    let mut t = String::new();
    push_str(&mut t, "Invalid dependency type: ");
    push_str(&mut t, s);
    text_result(t, true)
}

/// The symbol kind of a name used in searches.
pub open spec fn symbol_kind_of(s: Seq<char>) -> Option<NodeKind> {
    if s == "function"@ {
        Some(NodeKind::Function)
    } else if s == "class"@ {
        Some(NodeKind::Class)
    } else if s == "variable"@ {
        Some(NodeKind::Variable)
    } else if s == "module"@ {
        Some(NodeKind::Module)
    } else if s == "method"@ {
        Some(NodeKind::Method)
    } else {
        None
    }
}

/// Parses a symbol kind: `function`, `class`, `variable`, `module` or
/// `method`.
pub fn parse_symbol_kind(s: &str) -> (r: Option<NodeKind>)
    ensures
        r == symbol_kind_of(s@),
{
    if str_eq(s, "function") {
        Some(NodeKind::Function)
    } else if str_eq(s, "class") {
        Some(NodeKind::Class)
    } else if str_eq(s, "variable") {
        Some(NodeKind::Variable)
    } else if str_eq(s, "module") {
        Some(NodeKind::Module)
    } else if str_eq(s, "method") {
        Some(NodeKind::Method)
    } else {
        None
    }
}

/// The kinds named in a list, in order, names that are no kind left out.
pub open spec fn kinds_named(names: Seq<String>) -> Seq<NodeKind>
    decreases names.len(),
{
    if names.len() == 0 {
        Seq::empty()
    } else {
        let rest = kinds_named(names.drop_last());
        match symbol_kind_of(names.last()@) {
            Some(k) => rest.push(k),
            None => rest,
        }
    }
}

/// The symbol kinds named in a list, names that are no kind skipped.
pub fn parse_symbol_kinds(names: &Vec<String>) -> (r: Vec<NodeKind>)
    ensures
        r@ == kinds_named(names@),
{
    let mut r: Vec<NodeKind> = Vec::new();
    let mut i: usize = 0;
    while i < names.len()
        invariant
            i <= names@.len(),
            r@ == kinds_named(names@.subrange(0, i as int)),
        decreases names@.len() - i,
    {
        assert(names@.subrange(0, i + 1).drop_last() =~= names@.subrange(0, i as int));
        match parse_symbol_kind(names[i].as_str()) {
            Some(k) => r.push(k),
            None => {},
        }
        i = i + 1;
    }
    assert(names@.subrange(0, names@.len() as int) =~= names@);
    r
}

/// The bytes of a node id written in hex, if it is one.
pub open spec fn hex_id_bytes(s: Seq<char>) -> Option<Seq<u8>> {
    match hex_decode_spec(encode_utf8(s)) {
        Ok(b) => if b.len() == 16 {
            Some(b)
        } else {
            None
        },
        Err(_) => None,
    }
}

/// Parses a node id from hex.
pub fn parse_node_id(hex_str: &str) -> (r: Result<NodeId, HexError>)
    ensures
        match hex_id_bytes(hex_str@) {
            Some(b) => r matches Ok(id) && id.0@ == b,
            None => r is Err,
        },
{
    NodeId::from_hex(hex_str)
}

/// The dependency that an edge gives.
pub open spec fn dependency_of(g: GraphView, e: crate::ast::Edge, t: DependencyType) -> SymbolDependency {
    SymbolDependency { target_node: g.nodes[e.target], edge_kind: e.kind, dependency_type: t }
}

/// The dependencies of a node, in edge order.
pub open spec fn dependencies_of(g: GraphView, id: NodeId, t: DependencyType) -> Seq<SymbolDependency> {
    edges_with_target(list_at(g.outgoing, id), g.nodes, t).map_values(
        |e: crate::ast::Edge| dependency_of(g, e, t),
    )
}

/// The dependencies of several nodes, one after the other.
pub open spec fn dependencies_of_all(g: GraphView, nodes: Seq<Node>, t: DependencyType) -> Seq<
    SymbolDependency,
>
    decreases nodes.len(),
{
    if nodes.len() == 0 {
        Seq::empty()
    } else {
        dependencies_of_all(g, nodes.drop_last(), t) + dependencies_of(g, nodes.last().id, t)
    }
}

fn dependencies_as_seq(query: &GraphQuery, id: &NodeId, t: DependencyType) -> (r: Vec<SymbolDependency>)
    ensures
        r@ == dependencies_of(query.graph(), *id, t),
{
    let r = query.find_dependencies(id, t);
    assert(r@ =~= dependencies_of(query.graph(), *id, t));
    r
}

/// The dependencies of a target: the node it names in hex, or else every
/// node of the file it names, one node after the other.
pub fn collect_dependencies(query: &GraphQuery, target: &str, t: DependencyType) -> (r: Vec<
    SymbolDependency,
>)
    requires
        query.wf(),
    ensures
        match hex_id_bytes(target@) {
            Some(b) => exists|id: NodeId| id.0@ == b && r@ == dependencies_of(query.graph(), id, t),
            None => r@ == dependencies_of_all(
                query.graph(),
                present_nodes(list_at(query.graph().files, target@), query.graph().nodes),
                t,
            ),
        },
{
    match parse_node_id(target) {
        Ok(id) => dependencies_as_seq(query, &id, t),
        Err(_) => {
            let nodes = query.store().get_nodes_in_file(target);
            let mut all: Vec<SymbolDependency> = Vec::new();
            let mut i: usize = 0;
            while i < nodes.len()
                invariant
                    i <= nodes@.len(),
                    all@ == dependencies_of_all(query.graph(), nodes@.subrange(0, i as int), t),
                decreases nodes@.len() - i,
            {
                let mut deps = dependencies_as_seq(query, &nodes[i].id, t);
                assert(nodes@.subrange(0, i + 1).drop_last() =~= nodes@.subrange(0, i as int));
                all.append(&mut deps);
                i = i + 1;
            }
            assert(nodes@.subrange(0, nodes@.len() as int) =~= nodes@);
            all
        },
    }
}

} // verus!
