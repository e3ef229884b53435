//! The calls of the graph tools: each call's arguments checked in order,
//! the node ids parsed, the graph queried, and the answer handed back as
//! values.  A call fails outright when its arguments are absent, when a
//! required parameter is missing, or when a node id is not hex of sixteen
//! bytes; a symbol that is not in the graph, or an unknown dependency
//! type, is an answer of its own.  Rendering answers as JSON text is left
//! to the caller.

use crate::ast::{hex_decode_spec, Edge, HexError, Node, NodeId, NodeKind};
use crate::graph::{
    depth_bound, edges_with_source, info_ok, kinds_view, list_at, present_nodes, result_cap,
    symbol_match, walk_between, DependencyType, GraphQuery, GraphView, PathResult,
    ReferenceLocation, SymbolDependency, SymbolInfo, SymbolReference,
};
use crate::tools::{
    collect_dependencies, dependencies_of, dependencies_of_all, dependency_type_of, hex_id_bytes,
    kinds_named, parse_dependency_type, parse_symbol_kinds,
};
use vstd::utf8::encode_utf8;
use vstd::prelude::*;

verus! {

/// Why a tool call fails outright.
#[derive(Clone, Debug)]
pub enum ToolCallError {
    /// The call came without arguments.
    MissingArguments,
    /// A required parameter is absent; its name.
    MissingParameter(String),
    /// A node id that is not the hex of sixteen bytes.
    InvalidNodeId(HexError),
}

/// A node id read from hex: its sixteen bytes, or why it is none.
pub open spec fn id_parse(s: Seq<char>) -> Result<Seq<u8>, HexError> {
    match hex_decode_spec(encode_utf8(s)) {
        Err(e) => Err(e),
        Ok(b) => if b.len() == 16 {
            Ok(b)
        } else {
            Err(HexError::InvalidStringLength)
        },
    }
}

/// The call failed for want of the named parameter.
pub open spec fn missing_parameter<T>(r: Result<T, ToolCallError>, name: Seq<char>) -> bool {
    r matches Err(ToolCallError::MissingParameter(p)) && p@ == name
}

/// The call failed for want of arguments.
pub open spec fn missing_arguments<T>(r: Result<T, ToolCallError>) -> bool {
    r matches Err(ToolCallError::MissingArguments)
}

/// The call failed on a node id that does not parse, with its error.
pub open spec fn invalid_id<T>(r: Result<T, ToolCallError>, e: HexError) -> bool {
    r matches Err(ToolCallError::InvalidNodeId(x)) && x == e
}

/// Parses a node id, the error kept as a call error.
fn node_id(s: &str) -> (r: Result<NodeId, ToolCallError>)
    ensures
        match id_parse(s@) {
            Ok(b) => r matches Ok(id) && id.0@ == b,
            Err(e) => invalid_id(r, e),
        },
{
    match NodeId::from_hex(s) {
        Ok(id) => Ok(id),
        Err(e) => Err(ToolCallError::InvalidNodeId(e)),
    }
}

/// The arguments of `trace_path`.
#[derive(Clone, Debug)]
pub struct TraceArgs {
    pub source: Option<String>,
    pub target: Option<String>,
    pub max_depth: Option<usize>,
}

/// What a path search may answer between two nodes: a shortest walk of at
/// most the depth bound, or `None` when every walk is longer.
pub open spec fn path_answer(
    g: GraphView,
    source: NodeId,
    target: NodeId,
    max_depth: Option<usize>,
    r: Option<PathResult>,
) -> bool {
    match r {
        Some(p) => {
            &&& p.source == source
            &&& p.target == target
            &&& walk_between(g, p.path@, p.edges@, source, target)
            &&& p.distance == p.edges@.len()
            &&& p.distance <= depth_bound(max_depth)
            &&& forall|path: Seq<NodeId>, edges: Seq<Edge>|
                walk_between(g, path, edges, source, target) ==> p.distance <= edges.len()
        },
        None => {
            &&& source != target
            &&& forall|path: Seq<NodeId>, edges: Seq<Edge>|
                walk_between(g, path, edges, source, target) ==> edges.len() > depth_bound(
                    max_depth,
                )
        },
    }
}

/// Traces a path between two symbols given by their ids in hex: the
/// source is read and checked before the target.
pub fn trace_path(query: &GraphQuery, args: Option<TraceArgs>) -> (r: Result<
    Option<PathResult>,
    ToolCallError,
>)
    requires
        query.wf(),
    ensures
        match args {
            None => missing_arguments(r),
            Some(a) => match (a.source, a.target) {
                (None, _) => missing_parameter(r, "source"@),
                (Some(_), None) => missing_parameter(r, "target"@),
                (Some(s), Some(t)) => match (id_parse(s@), id_parse(t@)) {
                    (Err(e), _) => invalid_id(r, e),
                    (Ok(_), Err(e)) => invalid_id(r, e),
                    (Ok(sb), Ok(tb)) => r matches Ok(p) && exists|si: NodeId, ti: NodeId|
                        si.0@ == sb && ti.0@ == tb && path_answer(
                            query.graph(),
                            si,
                            ti,
                            a.max_depth,
                            p,
                        ),
                },
            },
        },
{
    let a = match args {
        None => return Err(ToolCallError::MissingArguments),
        Some(a) => a,
    };
    let source_str = match &a.source {
        None => return Err(ToolCallError::MissingParameter("source".to_string())),
        Some(s) => s,
    };
    let target_str = match &a.target {
        None => return Err(ToolCallError::MissingParameter("target".to_string())),
        Some(t) => t,
    };
    let source = match node_id(source_str.as_str()) {
        Ok(id) => id,
        Err(e) => return Err(e),
    };
    let target = match node_id(target_str.as_str()) {
        Ok(id) => id,
        Err(e) => return Err(e),
    };
    let found = query.find_path(&source, &target, a.max_depth);
    assert(path_answer(query.graph(), source, target, a.max_depth, found));
    Ok(found)
}

/// The reference that an incoming edge gives.
pub open spec fn reference_of(g: GraphView, e: Edge) -> SymbolReference {
    let n = g.nodes[e.source];
    SymbolReference {
        source_node: n,
        edge_kind: e.kind,
        location: ReferenceLocation { file: n.file, span: n.span },
    }
}

/// The references to a node: one per incoming edge whose source node is
/// present, in edge order.
pub open spec fn references_of(g: GraphView, id: NodeId) -> Seq<SymbolReference> {
    edges_with_source(list_at(g.incoming, id), g.nodes).map_values(|e: Edge| reference_of(g, e))
}

/// The references to a node, as a list.
fn references(query: &GraphQuery, id: &NodeId) -> (r: Vec<SymbolReference>)
    ensures
        r@ == references_of(query.graph(), *id),
{
    let r = query.find_references(id);
    assert(r@ =~= references_of(query.graph(), *id));
    r
}

/// The direct dependencies of a node, as a list.
fn direct_dependencies(query: &GraphQuery, id: &NodeId) -> (r: Vec<SymbolDependency>)
    ensures
        r@ == dependencies_of(query.graph(), *id, DependencyType::Direct),
{
    let r = query.find_dependencies(id, DependencyType::Direct);
    assert(r@ =~= dependencies_of(query.graph(), *id, DependencyType::Direct));
    r
}

/// The arguments of `explain_symbol`.
#[derive(Clone, Debug)]
pub struct ExplainArgs {
    pub symbol_id: Option<String>,
    pub include_dependencies: Option<bool>,
    pub include_usages: Option<bool>,
}

/// A symbol explained: its node, and, when asked for, its direct
/// dependencies and its usages.
pub struct SymbolExplanation {
    pub node: Node,
    pub dependencies: Option<Vec<SymbolDependency>>,
    pub usages: Option<Vec<SymbolReference>>,
}

/// A flag that was given as `true` (absent means `false`).
pub open spec fn flag_set(f: Option<bool>) -> bool {
    f == Some(true)
}

/// What explaining a present node gives.
pub open spec fn explains(
    g: GraphView,
    id: NodeId,
    with_deps: bool,
    with_usages: bool,
    x: SymbolExplanation,
) -> bool {
    &&& x.node == g.nodes[id]
    &&& if with_deps {
        x.dependencies matches Some(d) && d@ == dependencies_of(g, id, DependencyType::Direct)
    } else {
        x.dependencies is None
    }
    &&& if with_usages {
        x.usages matches Some(u) && u@ == references_of(g, id)
    } else {
        x.usages is None
    }
}

/// Explains a symbol given by its id in hex: `Ok(None)` when no node has
/// that id.
pub fn explain_symbol(query: &GraphQuery, args: Option<ExplainArgs>) -> (r: Result<
    Option<SymbolExplanation>,
    ToolCallError,
>)
    ensures
        match args {
            None => missing_arguments(r),
            Some(a) => match a.symbol_id {
                None => missing_parameter(r, "symbol_id"@),
                Some(s) => match id_parse(s@) {
                    Err(e) => invalid_id(r, e),
                    Ok(b) => r matches Ok(o) && exists|id: NodeId|
                        id.0@ == b && if query.graph().nodes.contains_key(id) {
                            o matches Some(x) && explains(
                                query.graph(),
                                id,
                                flag_set(a.include_dependencies),
                                flag_set(a.include_usages),
                                x,
                            )
                        } else {
                            o is None
                        },
                },
            },
        },
{
    let a = match args {
        None => return Err(ToolCallError::MissingArguments),
        Some(a) => a,
    };
    let id_str = match &a.symbol_id {
        None => return Err(ToolCallError::MissingParameter("symbol_id".to_string())),
        Some(s) => s,
    };
    let with_deps = match a.include_dependencies {
        Some(b) => b,
        None => false,
    };
    let with_usages = match a.include_usages {
        Some(b) => b,
        None => false,
    };
    let id = match node_id(id_str.as_str()) {
        Ok(id) => id,
        Err(e) => return Err(e),
    };
    let ghost g = query.graph();
    match query.store().get_node(&id) {
        None => Ok(None),
        Some(node) => {
            let dependencies = if with_deps {
                Some(direct_dependencies(query, &id))
            } else {
                None
            };
            let usages = if with_usages {
                Some(references(query, &id))
            } else {
                None
            };
            let x = SymbolExplanation { node, dependencies, usages };
            assert(explains(g, id, flag_set(a.include_dependencies), flag_set(a.include_usages), x));
            Ok(Some(x))
        },
    }
}

/// The arguments of `find_dependencies`.
#[derive(Clone, Debug)]
pub struct DependencyArgs {
    pub target: Option<String>,
    pub dependency_type: Option<String>,
}

/// What a dependency search answers.
pub enum DependencyAnswer {
    /// The dependencies found.
    Found(Vec<SymbolDependency>),
    /// The dependency type named is none of the known ones.
    InvalidType,
}

/// The dependency type asked for, by name (`direct` when none is given).
pub open spec fn named_dependency_type(t: Option<String>) -> Seq<char> {
    match t {
        Some(s) => s@,
        None => "direct"@,
    }
}

/// Finds the dependencies of a target: the node it names in hex, or else
/// every node of the file it names.  The target is read before the
/// dependency type is checked.
pub fn find_dependencies(query: &GraphQuery, args: Option<DependencyArgs>) -> (r: Result<
    DependencyAnswer,
    ToolCallError,
>)
    requires
        query.wf(),
    ensures
        match args {
            None => missing_arguments(r),
            Some(a) => match a.target {
                None => missing_parameter(r, "target"@),
                Some(target) => match dependency_type_of(named_dependency_type(a.dependency_type)) {
                    None => r matches Ok(DependencyAnswer::InvalidType),
                    Some(t) => r matches Ok(DependencyAnswer::Found(d)) && match hex_id_bytes(
                        target@,
                    ) {
                        Some(b) => exists|id: NodeId|
                            id.0@ == b && d@ == dependencies_of(query.graph(), id, t),
                        None => d@ == dependencies_of_all(
                            query.graph(),
                            present_nodes(list_at(query.graph().files, target@), query.graph().nodes),
                            t,
                        ),
                    },
                },
            },
        },
{
    let a = match args {
        None => return Err(ToolCallError::MissingArguments),
        Some(a) => a,
    };
    let target = match &a.target {
        None => return Err(ToolCallError::MissingParameter("target".to_string())),
        Some(t) => t,
    };
    let parsed = match &a.dependency_type {
        Some(s) => parse_dependency_type(s.as_str()),
        None => parse_dependency_type("direct"),
    };
    match parsed {
        None => Ok(DependencyAnswer::InvalidType),
        Some(t) => Ok(DependencyAnswer::Found(collect_dependencies(query, target.as_str(), t))),
    }
}

/// The arguments of `find_references`.
#[derive(Clone, Debug)]
pub struct ReferenceArgs {
    pub symbol_id: Option<String>,
}

/// Finds the references to a symbol given by its id in hex.
pub fn find_references(query: &GraphQuery, args: Option<ReferenceArgs>) -> (r: Result<
    Vec<SymbolReference>,
    ToolCallError,
>)
    ensures
        match args {
            None => missing_arguments(r),
            Some(a) => match a.symbol_id {
                None => missing_parameter(r, "symbol_id"@),
                Some(s) => match id_parse(s@) {
                    Err(e) => invalid_id(r, e),
                    Ok(b) => r matches Ok(v) && exists|id: NodeId|
                        id.0@ == b && v@ == references_of(query.graph(), id),
                },
            },
        },
{
    let a = match args {
        None => return Err(ToolCallError::MissingArguments),
        Some(a) => a,
    };
    let id_str = match &a.symbol_id {
        None => return Err(ToolCallError::MissingParameter("symbol_id".to_string())),
        Some(s) => s,
    };
    let id = match node_id(id_str.as_str()) {
        Ok(id) => id,
        Err(e) => return Err(e),
    };
    Ok(references(query, &id))
}

/// The arguments of `search_symbols`: the symbol types as the names given.
#[derive(Clone, Debug)]
pub struct SearchArgs {
    pub pattern: Option<String>,
    pub symbol_types: Option<Vec<String>>,
    pub limit: Option<usize>,
}

/// The kinds asked for by name, names that are no kind skipped.
pub open spec fn requested_kinds(names: Option<Vec<String>>) -> Option<Seq<NodeKind>> {
    match names {
        Some(n) => Some(kinds_named(n@)),
        None => None,
    }
}

/// What a symbol search may answer: matching symbols only, at most the
/// cap, and every match when fewer than the cap were found.
pub open spec fn search_answer(
    g: GraphView,
    pattern: Seq<char>,
    kinds: Option<Seq<NodeKind>>,
    limit: Option<usize>,
    r: Seq<SymbolInfo>,
) -> bool {
    &&& forall|i: int|
        0 <= i < r.len() ==> info_ok(g, #[trigger] r[i]) && exists|k: Seq<char>|
            symbol_match(g, pattern, kinds, k, r[i].node.id)
    &&& r.len() <= result_cap(limit)
    &&& r.len() < result_cap(limit) ==> forall|k: Seq<char>, id: NodeId|
        symbol_match(g, pattern, kinds, k, id) ==> exists|i: int|
            0 <= i < r.len() && (#[trigger] r[i]).node.id == id
}

/// Searches symbols by a pattern, optionally of the kinds named.
pub fn search_symbols(query: &GraphQuery, args: Option<SearchArgs>) -> (r: Result<
    Vec<SymbolInfo>,
    ToolCallError,
>)
    requires
        query.wf(),
    ensures
        match args {
            None => missing_arguments(r),
            Some(a) => match a.pattern {
                None => missing_parameter(r, "pattern"@),
                Some(p) => r matches Ok(v) && search_answer(
                    query.graph(),
                    p@,
                    requested_kinds(a.symbol_types),
                    a.limit,
                    v@,
                ),
            },
        },
{
    let a = match args {
        None => return Err(ToolCallError::MissingArguments),
        Some(a) => a,
    };
    let pattern = match &a.pattern {
        None => return Err(ToolCallError::MissingParameter("pattern".to_string())),
        Some(p) => p,
    };
    let kinds = match &a.symbol_types {
        Some(names) => Some(parse_symbol_kinds(names)),
        None => None,
    };
    assert(kinds_view(kinds) == requested_kinds(a.symbol_types));
    let found = query.search_symbols(pattern.as_str(), kinds, a.limit);
    Ok(found)
}

} // verus!
