//! In-memory code graph: nodes indexed by id, file, name and kind, with
//! outgoing and incoming edge lists; and the query engine over it (shortest
//! paths, references, dependencies, symbol search).

use crate::ast::{Edge, EdgeKind, Node, NodeId, NodeKind, Span};
use crate::tables::{
    edge_table, edge_table_clear, edge_table_entries, edge_table_get, edge_table_insert,
    edge_table_new, edge_table_remove, kind_table, kind_table_clear, kind_table_entries,
    kind_table_get, kind_table_insert, kind_table_new, name_table, name_table_clear,
    name_table_entries, name_table_get, name_table_insert, name_table_len, name_table_new,
    node_table, node_table_clear, node_table_get, node_table_insert, node_table_len,
    node_table_new, node_table_remove,
};
use crate::text::{chars_of, chars_contains, contains_seq, lowercase_of, push_str, to_lowercase};
use crate::validation::{regex_is_match, regex_match_result};
use dashmap::DashMap;
use std::sync::Arc;
use vstd::prelude::*;

verus! {

/// The abstract contents of a graph store.
pub struct GraphView {
    /// All nodes by id.
    pub nodes: Map<NodeId, Node>,
    /// Outgoing edges of each node id, in insertion order.
    pub outgoing: Map<NodeId, Seq<Edge>>,
    /// Incoming edges of each node id, in insertion order.
    pub incoming: Map<NodeId, Seq<Edge>>,
    /// Node ids by file path, in insertion order.
    pub files: Map<Seq<char>, Seq<NodeId>>,
    /// Node ids by symbol name, in insertion order.
    pub symbols: Map<Seq<char>, Seq<NodeId>>,
    /// Node ids by kind, in insertion order.
    pub kinds: Map<NodeKind, Seq<NodeId>>,
}

/// The list stored under a key, or the empty list.
pub open spec fn list_at<K, T>(m: Map<K, Seq<T>>, k: K) -> Seq<T> {
    if m.contains_key(k) {
        m[k]
    } else {
        Seq::empty()
    }
}

/// The map with `x` appended to the list under `k` (created if absent).
pub open spec fn append_at<K, T>(m: Map<K, Seq<T>>, k: K, x: T) -> Map<K, Seq<T>> {
    m.insert(k, list_at(m, k).push(x))
}

/// The nodes of the ids that are present, in order.
pub open spec fn present_nodes(ids: Seq<NodeId>, nodes: Map<NodeId, Node>) -> Seq<Node>
    decreases ids.len(),
{
    if ids.len() == 0 {
        Seq::empty()
    } else {
        let rest = present_nodes(ids.drop_last(), nodes);
        if nodes.contains_key(ids.last()) {
            rest.push(nodes[ids.last()])
        } else {
            rest
        }
    }
}

/// The list without the occurrences of `id`.
pub open spec fn without_id(s: Seq<NodeId>, id: NodeId) -> Seq<NodeId>
    decreases s.len(),
{
    if s.len() == 0 {
        s
    } else {
        let rest = without_id(s.drop_last(), id);
        if s.last() == id {
            rest
        } else {
            rest.push(s.last())
        }
    }
}

/// The map with `id` removed from the list under `k`, if there is one.
pub open spec fn remove_id_at<K>(m: Map<K, Seq<NodeId>>, k: K, id: NodeId) -> Map<K, Seq<NodeId>> {
    if m.contains_key(k) {
        m.insert(k, without_id(m[k], id))
    } else {
        m
    }
}

/// The edges of the list that do not end at `id`.
pub open spec fn edges_not_to(s: Seq<Edge>, id: NodeId) -> Seq<Edge>
    decreases s.len(),
{
    if s.len() == 0 {
        s
    } else {
        let rest = edges_not_to(s.drop_last(), id);
        if s.last().target == id {
            rest
        } else {
            rest.push(s.last())
        }
    }
}

/// The edges of the list that do not start at `id`.
pub open spec fn edges_not_from(s: Seq<Edge>, id: NodeId) -> Seq<Edge>
    decreases s.len(),
{
    if s.len() == 0 {
        s
    } else {
        let rest = edges_not_from(s.drop_last(), id);
        if s.last().source == id {
            rest
        } else {
            rest.push(s.last())
        }
    }
}

/// Every edge list of the map without the edges that end at `id`.
pub open spec fn strip_targets(m: Map<NodeId, Seq<Edge>>, id: NodeId) -> Map<NodeId, Seq<Edge>> {
    Map::new(|k: NodeId| m.contains_key(k), |k: NodeId| edges_not_to(m[k], id))
}

/// Every edge list of the map without the edges that start at `id`.
pub open spec fn strip_sources(m: Map<NodeId, Seq<Edge>>, id: NodeId) -> Map<NodeId, Seq<Edge>> {
    Map::new(|k: NodeId| m.contains_key(k), |k: NodeId| edges_not_from(m[k], id))
}

/// Every edge is listed under its source.
pub open spec fn edges_keyed_by_source(m: Map<NodeId, Seq<Edge>>) -> bool {
    forall|k: NodeId, e: Edge| m.contains_key(k) && #[trigger] m[k].contains(e) ==> e.source == k
}

/// Every edge is listed under its target.
pub open spec fn edges_keyed_by_target(m: Map<NodeId, Seq<Edge>>) -> bool {
    forall|k: NodeId, e: Edge| m.contains_key(k) && #[trigger] m[k].contains(e) ==> e.target == k
}

/// Filtering by target leaves no edge that ends at `id`.
pub proof fn lemma_edges_not_to_target(s: Seq<Edge>, id: NodeId, x: Edge)
    requires
        edges_not_to(s, id).contains(x),
    ensures
        x.target != id,
    decreases s.len(),
{
    if s.len() > 0 {
        let rest = edges_not_to(s.drop_last(), id);
        if rest.contains(x) {
            lemma_edges_not_to_target(s.drop_last(), id, x);
        } else {
            let i = choose|i: int| 0 <= i < edges_not_to(s, id).len() && edges_not_to(s, id)[i] == x;
            if s.last().target == id {
                assert(rest[i] == x);
            } else {
                if i < rest.len() {
                    assert(rest[i] == x);
                }
            }
        }
    }
}

/// Filtering by source leaves no edge that starts at `id`.
pub proof fn lemma_edges_not_from_source(s: Seq<Edge>, id: NodeId, x: Edge)
    requires
        edges_not_from(s, id).contains(x),
    ensures
        x.source != id,
    decreases s.len(),
{
    if s.len() > 0 {
        let rest = edges_not_from(s.drop_last(), id);
        if rest.contains(x) {
            lemma_edges_not_from_source(s.drop_last(), id, x);
        } else {
            let i = choose|i: int| 0 <= i < edges_not_from(s, id).len() && edges_not_from(s, id)[i] == x;
            if s.last().source == id {
                assert(rest[i] == x);
            } else {
                if i < rest.len() {
                    assert(rest[i] == x);
                }
            }
        }
    }
}

/// Filtering keeps only edges of the list.
pub proof fn lemma_edges_not_to_sub(s: Seq<Edge>, id: NodeId, x: Edge)
    requires
        edges_not_to(s, id).contains(x),
    ensures
        s.contains(x),
    decreases s.len(),
{
    if s.len() > 0 {
        let rest = edges_not_to(s.drop_last(), id);
        if rest.contains(x) {
            lemma_edges_not_to_sub(s.drop_last(), id, x);
            let j = choose|j: int| 0 <= j < s.drop_last().len() && s.drop_last()[j] == x;
            assert(s[j] == x);
        } else {
            assert(x == s.last());
            assert(s[s.len() - 1] == x);
        }
    }
}

/// Filtering keeps only edges of the list.
pub proof fn lemma_edges_not_from_sub(s: Seq<Edge>, id: NodeId, x: Edge)
    requires
        edges_not_from(s, id).contains(x),
    ensures
        s.contains(x),
    decreases s.len(),
{
    if s.len() > 0 {
        let rest = edges_not_from(s.drop_last(), id);
        if rest.contains(x) {
            lemma_edges_not_from_sub(s.drop_last(), id, x);
            let j = choose|j: int| 0 <= j < s.drop_last().len() && s.drop_last()[j] == x;
            assert(s[j] == x);
        } else {
            assert(x == s.last());
            assert(s[s.len() - 1] == x);
        }
    }
}

/// The total length of the edge lists of a finite map.
pub open spec fn total_len(m: Map<NodeId, Seq<Edge>>) -> nat
    decreases m.len(),
{
    if m.dom().finite() && m.len() > 0 {
        let k = m.dom().choose();
        m[k].len() + total_len(m.remove(k))
    } else {
        0
    }
}

/// The total does not depend on which key is taken first.
pub proof fn lemma_total_len_remove(m: Map<NodeId, Seq<Edge>>, k: NodeId)
    requires
        m.dom().finite(),
        m.contains_key(k),
    ensures
        total_len(m) == m[k].len() + total_len(m.remove(k)),
    decreases m.len(),
{
    let c = m.dom().choose();
    assert(m.dom().contains(c));
    if c != k {
        lemma_total_len_remove(m.remove(c), k);
        lemma_total_len_remove(m.remove(k), c);
        assert(m.remove(c).remove(k) =~= m.remove(k).remove(c));
    }
}

/// Graph statistics.
pub struct GraphStats {
    /// Total number of nodes
    pub total_nodes: usize,
    /// Total number of edges
    pub total_edges: usize,
    /// Total number of files
    pub total_files: usize,
    /// Node counts by kind (one entry per kind that was ever indexed)
    pub nodes_by_kind: Vec<(NodeKind, usize)>,
}

/// In-memory graph store for code intelligence.
pub struct GraphStore {
    nodes: DashMap<NodeId, Node>,
    outgoing_edges: DashMap<NodeId, Vec<Edge>>,
    incoming_edges: DashMap<NodeId, Vec<Edge>>,
    file_index: DashMap<String, Vec<NodeId>>,
    symbol_index: DashMap<String, Vec<NodeId>>,
    kind_index: DashMap<NodeKind, Vec<NodeId>>,
}

impl View for GraphStore {
    type V = GraphView;

    closed spec fn view(&self) -> GraphView {
        GraphView {
            nodes: node_table(self.nodes),
            outgoing: edge_table(self.outgoing_edges),
            incoming: edge_table(self.incoming_edges),
            files: name_table(self.file_index),
            symbols: name_table(self.symbol_index),
            kinds: kind_table(self.kind_index),
        }
    }
}

impl GraphStore {
    /// Every table of the store has finitely many entries.
    pub closed spec fn wf(&self) -> bool {
        &&& forall|k: NodeId| #[trigger] node_table(self.nodes).contains_key(k) ==> node_table(self.nodes)[k].id == k
        &&& edges_keyed_by_source(edge_table(self.outgoing_edges))
        &&& edges_keyed_by_target(edge_table(self.incoming_edges))
        &&& node_table(self.nodes).dom().finite()
        &&& edge_table(self.outgoing_edges).dom().finite()
        &&& edge_table(self.incoming_edges).dom().finite()
        &&& name_table(self.file_index).dom().finite()
        &&& name_table(self.symbol_index).dom().finite()
        &&& kind_table(self.kind_index).dom().finite()
    }

    /// Creates an empty graph store.
    pub fn new() -> (r: Self)
        ensures
            r.wf(),
            r@.nodes == Map::<NodeId, Node>::empty(),
            r@.outgoing == Map::<NodeId, Seq<Edge>>::empty(),
            r@.incoming == Map::<NodeId, Seq<Edge>>::empty(),
            r@.files == Map::<Seq<char>, Seq<NodeId>>::empty(),
            r@.symbols == Map::<Seq<char>, Seq<NodeId>>::empty(),
            r@.kinds == Map::<NodeKind, Seq<NodeId>>::empty(),
    {
        GraphStore {
            nodes: node_table_new(),
            outgoing_edges: edge_table_new(),
            incoming_edges: edge_table_new(),
            file_index: name_table_new(),
            symbol_index: name_table_new(),
            kind_index: kind_table_new(),
        }
    }

    /// Adds a node: it is stored under its id (replacing one with the same
    /// id) and its id is appended to the file, name and kind indexes.
    pub fn add_node(&mut self, node: Node)
        requires
            old(self).wf(),
        ensures
            final(self).wf(),
            final(self)@.nodes == old(self)@.nodes.insert(node.id, node),
            final(self)@.files == append_at(old(self)@.files, node.file@, node.id),
            final(self)@.symbols == append_at(old(self)@.symbols, node.name@, node.id),
            final(self)@.kinds == append_at(old(self)@.kinds, node.kind, node.id),
            final(self)@.outgoing == old(self)@.outgoing,
            final(self)@.incoming == old(self)@.incoming,
    {
        let node_id = node.id;
        let mut in_file = match name_table_get(&self.file_index, node.file.as_str()) {
            Some(v) => v,
            None => Vec::new(),
        };
        in_file.push(node_id);
        name_table_insert(&mut self.file_index, node.file.clone(), in_file);
        let mut named = match name_table_get(&self.symbol_index, node.name.as_str()) {
            Some(v) => v,
            None => Vec::new(),
        };
        named.push(node_id);
        name_table_insert(&mut self.symbol_index, node.name.clone(), named);
        let mut of_kind = match kind_table_get(&self.kind_index, &node.kind) {
            Some(v) => v,
            None => Vec::new(),
        };
        of_kind.push(node_id);
        kind_table_insert(&mut self.kind_index, node.kind, of_kind);
        node_table_insert(&mut self.nodes, node_id, node);
    }

    /// Adds an edge to the outgoing list of its source and the incoming list
    /// of its target.
    pub fn add_edge(&mut self, edge: Edge)
        requires
            old(self).wf(),
        ensures
            final(self).wf(),
            final(self)@.outgoing == append_at(old(self)@.outgoing, edge.source, edge),
            final(self)@.incoming == append_at(old(self)@.incoming, edge.target, edge),
            final(self)@.nodes == old(self)@.nodes,
            final(self)@.files == old(self)@.files,
            final(self)@.symbols == old(self)@.symbols,
            final(self)@.kinds == old(self)@.kinds,
    {
        let mut out = match edge_table_get(&self.outgoing_edges, &edge.source) {
            Some(v) => v,
            None => Vec::new(),
        };
        out.push(edge);
        edge_table_insert(&mut self.outgoing_edges, edge.source, out);
        let mut inc = match edge_table_get(&self.incoming_edges, &edge.target) {
            Some(v) => v,
            None => Vec::new(),
        };
        inc.push(edge);
        edge_table_insert(&mut self.incoming_edges, edge.target, inc);
        proof {
            let m0 = old(self)@.outgoing;
            let m1 = self@.outgoing;
            assert forall|k: NodeId, e: Edge| m1.contains_key(k) && #[trigger] m1[k].contains(e) implies e.source == k by {
                if k == edge.source {
                    if e != edge {
                        let j = choose|j: int| 0 <= j < m1[k].len() && m1[k][j] == e;
                        assert(list_at(m0, k)[j] == e);
                        assert(m0[k].contains(e));
                    }
                } else {
                    assert(m1[k] == m0[k]);
                }
            }
            let n0 = old(self)@.incoming;
            let n1 = self@.incoming;
            assert forall|k: NodeId, e: Edge| n1.contains_key(k) && #[trigger] n1[k].contains(e) implies e.target == k by {
                if k == edge.target {
                    if e != edge {
                        let j = choose|j: int| 0 <= j < n1[k].len() && n1[k][j] == e;
                        assert(list_at(n0, k)[j] == e);
                        assert(n0[k].contains(e));
                    }
                } else {
                    assert(n1[k] == n0[k]);
                }
            }
        }
    }

    /// The node with the given id, if any.
    pub fn get_node(&self, node_id: &NodeId) -> (r: Option<Node>)
        ensures
            self@.nodes.contains_key(*node_id) ==> r == Some(self@.nodes[*node_id]),
            !self@.nodes.contains_key(*node_id) ==> r is None,
    {
        node_table_get(&self.nodes, node_id)
    }

    /// The nodes of a list of ids that are present, in order.
    fn nodes_of(&self, ids: &Vec<NodeId>) -> (r: Vec<Node>)
        ensures
            r@ == present_nodes(ids@, self@.nodes),
    {
        let mut r: Vec<Node> = Vec::new();
        let mut i: usize = 0;
        while i < ids.len()
            invariant
                i <= ids@.len(),
                r@ == present_nodes(ids@.subrange(0, i as int), self@.nodes),
            decreases ids@.len() - i,
        {
            assert(ids@.subrange(0, i + 1).drop_last() =~= ids@.subrange(0, i as int));
            match self.get_node(&ids[i]) {
                Some(n) => r.push(n),
                None => {},
            }
            i = i + 1;
        }
        assert(ids@.subrange(0, ids@.len() as int) =~= ids@);
        r
    }

    /// All nodes indexed under a file path.
    pub fn get_nodes_in_file(&self, file_path: &str) -> (r: Vec<Node>)
        ensures
            r@ == present_nodes(list_at(self@.files, file_path@), self@.nodes),
    {
        match name_table_get(&self.file_index, file_path) {
            Some(ids) => self.nodes_of(&ids),
            None => Vec::new(),
        }
    }

    /// All nodes indexed under a symbol name.
    pub fn get_nodes_by_name(&self, name: &str) -> (r: Vec<Node>)
        ensures
            r@ == present_nodes(list_at(self@.symbols, name@), self@.nodes),
    {
        match name_table_get(&self.symbol_index, name) {
            Some(ids) => self.nodes_of(&ids),
            None => Vec::new(),
        }
    }

    /// All nodes indexed under a kind.
    pub fn get_nodes_by_kind(&self, kind: NodeKind) -> (r: Vec<Node>)
        ensures
            r@ == present_nodes(list_at(self@.kinds, kind), self@.nodes),
    {
        match kind_table_get(&self.kind_index, &kind) {
            Some(ids) => self.nodes_of(&ids),
            None => Vec::new(),
        }
    }

    /// The outgoing edges of a node.
    pub fn get_outgoing_edges(&self, node_id: &NodeId) -> (r: Vec<Edge>)
        ensures
            r@ == list_at(self@.outgoing, *node_id),
    {
        match edge_table_get(&self.outgoing_edges, node_id) {
            Some(v) => v,
            None => Vec::new(),
        }
    }

    /// The incoming edges of a node.
    pub fn get_incoming_edges(&self, node_id: &NodeId) -> (r: Vec<Edge>)
        ensures
            r@ == list_at(self@.incoming, *node_id),
    {
        match edge_table_get(&self.incoming_edges, node_id) {
            Some(v) => v,
            None => Vec::new(),
        }
    }

    /// The number of ids under each kind, one entry per kind.
    fn kind_counts(&self) -> (r: Vec<(NodeKind, usize)>)
        ensures
            r@.len() == self@.kinds.len(),
            forall|i: int|
                0 <= i < r@.len() ==> self@.kinds.contains_key(#[trigger] r@[i].0) && r@[i].1
                    == self@.kinds[r@[i].0].len(),
            forall|k: NodeKind|
                self@.kinds.contains_key(k) ==> exists|i: int| 0 <= i < r@.len() && #[trigger] r@[i].0 == k,
            forall|i: int, j: int| 0 <= i < j < r@.len() ==> r@[i].0 != r@[j].0,
    {
        let kinds = kind_table_entries(&self.kind_index);
        let mut by_kind: Vec<(NodeKind, usize)> = Vec::new();
        let mut i: usize = 0;
        while i < kinds.len()
            invariant
                i <= kinds@.len(),
                by_kind@.len() == i,
                forall|j: int|
                    0 <= j < i ==> #[trigger] by_kind@[j].0 == kinds@[j].0 && by_kind@[j].1
                        == kinds@[j].1@.len(),
            decreases kinds@.len() - i,
        {
            let c = kinds[i].1.len();
            by_kind.push((kinds[i].0, c));
            i = i + 1;
        }
        assert forall|k: NodeKind| self@.kinds.contains_key(k) implies exists|i: int|
            0 <= i < by_kind@.len() && #[trigger] by_kind@[i].0 == k by {
            let j = choose|j: int| 0 <= j < kinds@.len() && #[trigger] kinds@[j].0 == k;
            assert(by_kind@[j].0 == k);
        }
        by_kind
    }

    /// Graph statistics: node count, edge count (capped at `usize::MAX`),
    /// file count, and the number of ids under each kind.
    #[verifier::spinoff_prover]
    pub fn get_stats(&self) -> (r: GraphStats)
        requires
            self.wf(),
        ensures
            r.total_nodes == self@.nodes.len(),
            r.total_edges == if total_len(self@.outgoing) <= usize::MAX {
                total_len(self@.outgoing)
            } else {
                usize::MAX as nat
            },
            r.total_files == self@.files.len(),
            r.nodes_by_kind@.len() == self@.kinds.len(),
            forall|i: int|
                0 <= i < r.nodes_by_kind@.len() ==> self@.kinds.contains_key(
                    #[trigger] r.nodes_by_kind@[i].0,
                ) && r.nodes_by_kind@[i].1 == self@.kinds[r.nodes_by_kind@[i].0].len(),
            forall|k: NodeKind|
                self@.kinds.contains_key(k) ==> exists|i: int|
                    0 <= i < r.nodes_by_kind@.len() && #[trigger] r.nodes_by_kind@[i].0 == k,
            forall|i: int, j: int|
                0 <= i < j < r.nodes_by_kind@.len() ==> r.nodes_by_kind@[i].0
                    != r.nodes_by_kind@[j].0,
    {
        let total_nodes = node_table_len(&self.nodes);
        let total_files = name_table_len(&self.file_index);
        let entries = edge_table_entries(&self.outgoing_edges);
        let ghost m = self@.outgoing;
        let mut total_edges: usize = 0;
        let ghost mut counted: nat = 0;
        let ghost mut rest = m;
        let mut i: usize = 0;
        while i < entries.len()
            invariant
                m == self@.outgoing,
                m.dom().finite(),
                rest.dom().finite(),
                i <= entries@.len(),
                entries@.len() == m.len(),
                forall|j: int|
                    0 <= j < entries@.len() ==> m.contains_key(#[trigger] entries@[j].0)
                        && m[entries@[j].0] == entries@[j].1@,
                forall|k: NodeId| m.contains_key(k) ==> exists|j: int| 0 <= j < entries@.len() && #[trigger] entries@[j].0 == k,
                forall|a: int, b: int| 0 <= a < b < entries@.len() ==> entries@[a].0 != entries@[b].0,
                forall|k: NodeId|
                    rest.contains_key(k) <==> (m.contains_key(k) && forall|j: int|
                        0 <= j < i ==> #[trigger] entries@[j].0 != k),
                forall|k: NodeId| rest.contains_key(k) ==> rest[k] == m[k],
                counted + total_len(rest) == total_len(m),
                total_edges == if counted <= usize::MAX {
                    counted
                } else {
                    usize::MAX as nat
                },
            decreases entries@.len() - i,
        {
            let k = entries[i].0;
            let n = entries[i].1.len();
            proof {
                assert(rest.contains_key(k)) by {
                    assert forall|j: int| 0 <= j < i implies #[trigger] entries@[j].0 != k by {
                        assert(entries@[j].0 != entries@[i as int].0);
                    }
                }
                lemma_total_len_remove(rest, k);
                counted = counted + n as nat;
                rest = rest.remove(k);
            }
            if total_edges > usize::MAX - n {
                total_edges = usize::MAX;
            } else {
                total_edges = total_edges + n;
            }
            i = i + 1;
        }
        proof {
            if rest.len() > 0 {
                let k = rest.dom().choose();
                assert(rest.contains_key(k));
                let j = choose|j: int| 0 <= j < entries@.len() && #[trigger] entries@[j].0 == k;
                assert(entries@[j].0 != k);
            }
            assert(total_len(rest) == 0);
        }
        let by_kind = self.kind_counts();
        GraphStats { total_nodes, total_edges, total_files, nodes_by_kind: by_kind }
    }

    /// Removes every node, edge and index entry.
    pub fn clear(&mut self)
        ensures
            final(self).wf(),
            final(self)@.nodes == Map::<NodeId, Node>::empty(),
            final(self)@.outgoing == Map::<NodeId, Seq<Edge>>::empty(),
            final(self)@.incoming == Map::<NodeId, Seq<Edge>>::empty(),
            final(self)@.files == Map::<Seq<char>, Seq<NodeId>>::empty(),
            final(self)@.symbols == Map::<Seq<char>, Seq<NodeId>>::empty(),
            final(self)@.kinds == Map::<NodeKind, Seq<NodeId>>::empty(),
    {
        node_table_clear(&mut self.nodes);
        edge_table_clear(&mut self.outgoing_edges);
        edge_table_clear(&mut self.incoming_edges);
        name_table_clear(&mut self.file_index);
        name_table_clear(&mut self.symbol_index);
        kind_table_clear(&mut self.kind_index);
    }

    /// The list without the occurrences of `id`.
    fn ids_without(v: &Vec<NodeId>, id: &NodeId) -> (r: Vec<NodeId>)
        ensures
            r@ == without_id(v@, *id),
    {
        let mut r: Vec<NodeId> = Vec::new();
        let mut i: usize = 0;
        while i < v.len()
            invariant
                i <= v@.len(),
                r@ == without_id(v@.subrange(0, i as int), *id),
            decreases v@.len() - i,
        {
            assert(v@.subrange(0, i + 1).drop_last() =~= v@.subrange(0, i as int));
            if v[i] != *id {
                r.push(v[i]);
            }
            i = i + 1;
        }
        assert(v@.subrange(0, v@.len() as int) =~= v@);
        r
    }

    /// The edges of the list, keeping those that do not touch `id` at the
    /// given end (`at_target`: the target end; otherwise the source end).
    fn edges_without(v: &Vec<Edge>, id: &NodeId, at_target: bool) -> (r: Vec<Edge>)
        ensures
            at_target ==> r@ == edges_not_to(v@, *id),
            !at_target ==> r@ == edges_not_from(v@, *id),
    {
        let mut r: Vec<Edge> = Vec::new();
        let mut i: usize = 0;
        while i < v.len()
            invariant
                i <= v@.len(),
                at_target ==> r@ == edges_not_to(v@.subrange(0, i as int), *id),
                !at_target ==> r@ == edges_not_from(v@.subrange(0, i as int), *id),
            decreases v@.len() - i,
        {
            assert(v@.subrange(0, i + 1).drop_last() =~= v@.subrange(0, i as int));
            let e = v[i];
            let end = if at_target {
                e.target
            } else {
                e.source
            };
            if end != *id {
                r.push(e);
            }
            i = i + 1;
        }
        assert(v@.subrange(0, v@.len() as int) =~= v@);
        r
    }

    /// Removes `id` from the list stored under a name, if there is one.
    fn remove_from_name_index(m: &mut DashMap<String, Vec<NodeId>>, key: &String, id: &NodeId)
        ensures
            name_table(*final(m)) == remove_id_at(name_table(*old(m)), key@, *id),
    {
        match name_table_get(m, key.as_str()) {
            Some(v) => {
                let w = Self::ids_without(&v, id);
                name_table_insert(m, key.clone(), w);
            },
            None => {},
        }
    }

    /// Filters every edge list of a table (see `edges_without`).
    fn strip_edges(m: &mut DashMap<NodeId, Vec<Edge>>, id: &NodeId, at_target: bool)
        requires
            edge_table(*old(m)).dom().finite(),
        ensures
            at_target ==> edge_table(*final(m)) == strip_targets(edge_table(*old(m)), *id),
            !at_target ==> edge_table(*final(m)) == strip_sources(edge_table(*old(m)), *id),
            edge_table(*final(m)).dom().finite(),
    {
        let ghost t0 = edge_table(*m);
        let entries = edge_table_entries(m);
        let mut i: usize = 0;
        while i < entries.len()
            invariant
                t0 == edge_table(*old(m)),
                t0.dom().finite(),
                i <= entries@.len(),
                forall|j: int|
                    0 <= j < entries@.len() ==> t0.contains_key(#[trigger] entries@[j].0)
                        && t0[entries@[j].0] == entries@[j].1@,
                forall|k: NodeId| t0.contains_key(k) ==> exists|j: int| 0 <= j < entries@.len() && #[trigger] entries@[j].0 == k,
                forall|a: int, b: int| 0 <= a < b < entries@.len() ==> entries@[a].0 != entries@[b].0,
                edge_table(*m).dom() == t0.dom(),
                forall|j: int|
                    0 <= j < i ==> (at_target ==> edge_table(*m)[#[trigger] entries@[j].0]
                        == edges_not_to(t0[entries@[j].0], *id)) && (!at_target ==> edge_table(
                        *m,
                    )[entries@[j].0] == edges_not_from(t0[entries@[j].0], *id)),
                forall|k: NodeId|
                    t0.contains_key(k) && (forall|j: int| 0 <= j < i ==> #[trigger] entries@[j].0 != k)
                        ==> edge_table(*m)[k] == t0[k],
            decreases entries@.len() - i,
        {
            let k = entries[i].0;
            let w = Self::edges_without(&entries[i].1, id, at_target);
            let ghost before = edge_table(*m);
            edge_table_insert(m, k, w);
            proof {
                assert(edge_table(*m).dom() =~= t0.dom());
                assert forall|j: int| 0 <= j < i + 1 implies (at_target ==> edge_table(
                    *m,
                )[#[trigger] entries@[j].0] == edges_not_to(t0[entries@[j].0], *id)) && (
                !at_target ==> edge_table(*m)[entries@[j].0] == edges_not_from(
                    t0[entries@[j].0],
                    *id,
                )) by {
                    if j < i {
                        assert(entries@[j].0 != entries@[i as int].0);
                    }
                }
            }
            i = i + 1;
        }
        proof {
            if at_target {
                assert forall|k: NodeId| #[trigger] edge_table(*m).contains_key(k) implies edge_table(
                    *m,
                )[k] == strip_targets(t0, *id)[k] by {
                    let j = choose|j: int| 0 <= j < entries@.len() && #[trigger] entries@[j].0 == k;
                }
                assert(edge_table(*m) =~= strip_targets(t0, *id));
            } else {
                assert forall|k: NodeId| #[trigger] edge_table(*m).contains_key(k) implies edge_table(
                    *m,
                )[k] == strip_sources(t0, *id)[k] by {
                    let j = choose|j: int| 0 <= j < entries@.len() && #[trigger] entries@[j].0 == k;
                }
                assert(edge_table(*m) =~= strip_sources(t0, *id));
            }
        }
    }

    /// Removes a node: it leaves the node table and the indexes under its
    /// file, name and kind; its own edge lists go, and every other edge list
    /// loses the edges that end (outgoing) or start (incoming) at it.  A node
    /// that is not present changes nothing.
    pub fn remove_node(&mut self, node_id: &NodeId) -> (r: Option<Node>)
        requires
            old(self).wf(),
        ensures
            final(self).wf(),
            !old(self)@.nodes.contains_key(*node_id) ==> r is None && final(self)@ == old(self)@,
            old(self)@.nodes.contains_key(*node_id) ==> {
                let n = old(self)@.nodes[*node_id];
                &&& r == Some(n)
                &&& final(self)@.nodes == old(self)@.nodes.remove(*node_id)
                &&& final(self)@.files == remove_id_at(old(self)@.files, n.file@, *node_id)
                &&& final(self)@.symbols == remove_id_at(old(self)@.symbols, n.name@, *node_id)
                &&& final(self)@.kinds == remove_id_at(old(self)@.kinds, n.kind, *node_id)
                &&& final(self)@.outgoing == strip_targets(
                    old(self)@.outgoing.remove(*node_id),
                    *node_id,
                )
                &&& final(self)@.incoming == strip_sources(
                    old(self)@.incoming.remove(*node_id),
                    *node_id,
                )
                &&& forall|k: NodeId, e: Edge|
                    #[trigger] list_at(final(self)@.outgoing, k).contains(e) ==> e.source
                        != *node_id && e.target != *node_id
                &&& forall|k: NodeId, e: Edge|
                    #[trigger] list_at(final(self)@.incoming, k).contains(e) ==> e.source
                        != *node_id && e.target != *node_id
            },
    {
        let removed = node_table_remove(&mut self.nodes, node_id);
        match removed {
            None => {
                assert(node_table(self.nodes) =~= node_table(old(self).nodes));
                None
            },
            Some(node) => {
                Self::remove_from_name_index(&mut self.file_index, &node.file, node_id);
                Self::remove_from_name_index(&mut self.symbol_index, &node.name, node_id);
                match kind_table_get(&self.kind_index, &node.kind) {
                    Some(v) => {
                        let w = Self::ids_without(&v, node_id);
                        kind_table_insert(&mut self.kind_index, node.kind, w);
                    },
                    None => {},
                }
                edge_table_remove(&mut self.outgoing_edges, node_id);
                edge_table_remove(&mut self.incoming_edges, node_id);
                Self::strip_edges(&mut self.outgoing_edges, node_id, true);
                Self::strip_edges(&mut self.incoming_edges, node_id, false);
                proof {
                    let m0 = old(self)@.outgoing;
                    let m1 = self@.outgoing;
                    assert forall|k: NodeId, e: Edge| m1.contains_key(k) && #[trigger] m1[k].contains(e) implies e.source == k by {
                        lemma_edges_not_to_sub(m0[k], *node_id, e);
                    }
                    let n0 = old(self)@.incoming;
                    let n1 = self@.incoming;
                    assert forall|k: NodeId, e: Edge| n1.contains_key(k) && #[trigger] n1[k].contains(e) implies e.target == k by {
                        lemma_edges_not_from_sub(n0[k], *node_id, e);
                    }
                    assert forall|k: NodeId, e: Edge|
                        #[trigger] list_at(m1, k).contains(e) implies e.source != *node_id
                            && e.target != *node_id by {
                        lemma_edges_not_to_sub(m0[k], *node_id, e);
                        lemma_edges_not_to_target(m0[k], *node_id, e);
                    }
                    assert forall|k: NodeId, e: Edge|
                        #[trigger] list_at(n1, k).contains(e) implies e.source != *node_id
                            && e.target != *node_id by {
                        lemma_edges_not_from_sub(n0[k], *node_id, e);
                        lemma_edges_not_from_source(n0[k], *node_id, e);
                    }
                }
                Some(node)
            },
        }
    }

    /// Every file path that has an index entry, each once, in the table's
    /// order.
    pub fn get_all_files(&self) -> (r: Vec<String>)
        ensures
            r@.len() == self@.files.len(),
            forall|i: int| 0 <= i < r@.len() ==> self@.files.contains_key(#[trigger] r@[i]@),
            forall|k: Seq<char>|
                self@.files.contains_key(k) ==> exists|i: int| 0 <= i < r@.len() && #[trigger] r@[i]@ == k,
            forall|i: int, j: int| 0 <= i < j < r@.len() ==> r@[i]@ != r@[j]@,
    {
        let entries = name_table_entries(&self.file_index);
        let mut r: Vec<String> = Vec::new();
        let mut i: usize = 0;
        while i < entries.len()
            invariant
                i <= entries@.len(),
                r@.len() == i,
                forall|j: int| 0 <= j < i ==> #[trigger] r@[j]@ == entries@[j].0@,
            decreases entries@.len() - i,
        {
            r.push(entries[i].0.clone());
            i = i + 1;
        }
        assert forall|k: Seq<char>| self@.files.contains_key(k) implies exists|i: int|
            0 <= i < r@.len() && #[trigger] r@[i]@ == k by {
            let j = choose|j: int| 0 <= j < entries@.len() && #[trigger] entries@[j].0@ == k;
            assert(r@[j]@ == k);
        }
        r
    }

    /// The file index entries (file path and node ids), each once, in the
    /// table's order.
    pub fn iter_file_index(&self) -> (r: Vec<(String, Vec<NodeId>)>)
        ensures
            r@.len() == self@.files.len(),
            forall|i: int|
                0 <= i < r@.len() ==> self@.files.contains_key(#[trigger] r@[i].0@)
                    && self@.files[r@[i].0@] == r@[i].1@,
            forall|k: Seq<char>|
                self@.files.contains_key(k) ==> exists|i: int| 0 <= i < r@.len() && #[trigger] r@[i].0@ == k,
            forall|i: int, j: int| 0 <= i < j < r@.len() ==> r@[i].0@ != r@[j].0@,
    {
        name_table_entries(&self.file_index)
    }

    /// The symbol index entries (name and node ids), each once, in the
    /// table's order.
    pub fn iter_symbol_index(&self) -> (r: Vec<(String, Vec<NodeId>)>)
        ensures
            r@.len() == self@.symbols.len(),
            forall|i: int|
                0 <= i < r@.len() ==> self@.symbols.contains_key(#[trigger] r@[i].0@)
                    && self@.symbols[r@[i].0@] == r@[i].1@,
            forall|k: Seq<char>|
                self@.symbols.contains_key(k) ==> exists|i: int| 0 <= i < r@.len() && #[trigger] r@[i].0@ == k,
            forall|i: int, j: int| 0 <= i < j < r@.len() ==> r@[i].0@ != r@[j].0@,
    {
        name_table_entries(&self.symbol_index)
    }

    /// The node ids indexed under a file path.
    pub fn get_nodes_by_file(&self, file_path: &str) -> (r: Vec<NodeId>)
        ensures
            r@ == list_at(self@.files, file_path@),
    {
        match name_table_get(&self.file_index, file_path) {
            Some(v) => v,
            None => Vec::new(),
        }
    }

    /// The node ids indexed under a symbol name.
    pub fn get_node_ids_by_name(&self, name: &str) -> (r: Vec<NodeId>)
        ensures
            r@ == list_at(self@.symbols, name@),
    {
        match name_table_get(&self.symbol_index, name) {
            Some(v) => v,
            None => Vec::new(),
        }
    }
}

impl Default for GraphStore {
    fn default() -> (r: Self)
        ensures
            r.wf(),
            r@.nodes == Map::<NodeId, Node>::empty(),
            r@.outgoing == Map::<NodeId, Seq<Edge>>::empty(),
            r@.incoming == Map::<NodeId, Seq<Edge>>::empty(),
            r@.files == Map::<Seq<char>, Seq<NodeId>>::empty(),
            r@.symbols == Map::<Seq<char>, Seq<NodeId>>::empty(),
            r@.kinds == Map::<NodeKind, Seq<NodeId>>::empty(),
    {
        Self::new()
    }
}


/// `path` and `edges` form a walk in the graph: each edge leaves the node
/// before it, enters the node after it, and is in the outgoing list of its
/// source.
pub open spec fn is_walk(g: GraphView, path: Seq<NodeId>, edges: Seq<Edge>) -> bool {
    &&& path.len() == edges.len() + 1
    &&& forall|i: int|
        0 <= i < edges.len() ==> #[trigger] edges[i].target == path[i + 1] && edges[i].source
            == path[i] && list_at(
            g.outgoing,
            path[i],
        ).contains(edges[i])
}

/// A walk from `s` to `t`.
pub open spec fn walk_between(
    g: GraphView,
    path: Seq<NodeId>,
    edges: Seq<Edge>,
    s: NodeId,
    t: NodeId,
) -> bool {
    &&& is_walk(g, path, edges)
    &&& path[0] == s
    &&& path.last() == t
}

/// The depth bound of a path search (ten when none is given).
pub open spec fn depth_bound(max_depth: Option<usize>) -> nat {
    match max_depth {
        Some(d) => d as nat,
        None => 10,
    }
}

/// Result of a path finding operation.
pub struct PathResult {
    /// Source node ID
    pub source: NodeId,
    /// Target node ID
    pub target: NodeId,
    /// Path of node IDs from source to target
    pub path: Vec<NodeId>,
    /// Distance (number of hops)
    pub distance: usize,
    /// Edges in the path
    pub edges: Vec<Edge>,
}

/// Information about a symbol.
pub struct SymbolInfo {
    /// The node representing the symbol
    pub node: Node,
    /// Number of references to this symbol
    pub references_count: usize,
    /// Number of dependencies from this symbol
    pub dependencies_count: usize,
}

/// Location of a reference.
pub struct ReferenceLocation {
    /// File containing the reference
    pub file: String,
    /// Span of the reference
    pub span: Span,
}

/// A reference to a symbol.
pub struct SymbolReference {
    /// The node that references the symbol
    pub source_node: Node,
    /// Type of reference (edge kind)
    pub edge_kind: EdgeKind,
    /// Location of the reference
    pub location: ReferenceLocation,
}

/// Type of dependency analysis.
#[derive(Clone, Copy, Debug, PartialEq, Eq, Structural)]
pub enum DependencyType {
    /// All direct dependencies
    Direct,
    /// Only function calls
    Calls,
    /// Only imports
    Imports,
    /// Only reads
    Reads,
    /// Only writes
    Writes,
}

/// Whether an edge kind counts for a dependency type.
pub open spec fn dependency_includes(t: DependencyType, k: EdgeKind) -> bool {
    match t {
        DependencyType::Direct => true,
        DependencyType::Calls => k == EdgeKind::Calls,
        DependencyType::Imports => k == EdgeKind::Imports,
        DependencyType::Reads => k == EdgeKind::Reads,
        DependencyType::Writes => k == EdgeKind::Writes,
    }
}

/// A dependency of a symbol.
pub struct SymbolDependency {
    /// The target node that is depended upon
    pub target_node: Node,
    /// Type of dependency (edge kind)
    pub edge_kind: EdgeKind,
    /// Dependency classification
    pub dependency_type: DependencyType,
}

/// The state of a breadth-first search: `visited[0]` is the source, and
/// `visited[i + 1]` was reached by `parents[i]` from `visited[pidx[i]]`, one
/// level deeper.
pub open spec fn bfs_tree(
    g: GraphView,
    source: NodeId,
    visited: Seq<NodeId>,
    parents: Seq<Edge>,
    pidx: Seq<usize>,
    lvl: Map<NodeId, nat>,
) -> bool {
    &&& visited.len() == parents.len() + 1
    &&& pidx.len() == parents.len()
    &&& visited[0] == source
    &&& forall|v: NodeId| lvl.contains_key(v) <==> visited.contains(v)
    &&& lvl[source] == 0
    &&& forall|i: int|
        0 <= i < parents.len() ==> {
            &&& pidx[i] <= i
            &&& #[trigger] parents[i].target == visited[i + 1]
            &&& parents[i].source == visited[pidx[i] as int]
            &&& list_at(g.outgoing, visited[pidx[i] as int]).contains(parents[i])
            &&& lvl[visited[i + 1]] == lvl[visited[pidx[i] as int]] + 1
        }
}

/// Every edge leaving a node of level below `d` leads to a node of level at
/// most one more.
pub open spec fn expanded_below(g: GraphView, lvl: Map<NodeId, nat>, d: nat) -> bool {
    forall|u: NodeId, e: Edge|
        lvl.contains_key(u) && lvl[u] < d && #[trigger] list_at(g.outgoing, u).contains(e)
            ==> lvl.contains_key(e.target) && lvl[e.target] <= lvl[u] + 1
}

/// Along a walk from the source no longer than `d`, every node has been
/// reached at a level no higher than its position.
pub proof fn lemma_walk_levels(
    g: GraphView,
    lvl: Map<NodeId, nat>,
    d: nat,
    source: NodeId,
    path: Seq<NodeId>,
    edges: Seq<Edge>,
    i: int,
)
    requires
        lvl.contains_key(source),
        lvl[source] == 0,
        expanded_below(g, lvl, d),
        is_walk(g, path, edges),
        path[0] == source,
        0 <= i <= edges.len(),
        i <= d,
    ensures
        lvl.contains_key(path[i]),
        lvl[path[i]] <= i,
    decreases i,
{
    if i > 0 {
        lemma_walk_levels(g, lvl, d, source, path, edges, i - 1);
        let e = edges[i - 1];
        assert(e.target == path[i]);
        assert(list_at(g.outgoing, path[i - 1]).contains(e));
    }
}

/// The reversed path and edges walk from `visited[c]` back to `t`, and their
/// length is the difference of the levels.
pub open spec fn chain_ok(
    g: GraphView,
    visited: Seq<NodeId>,
    lvl: Map<NodeId, nat>,
    c: int,
    rpath: Seq<NodeId>,
    redges: Seq<Edge>,
    t: NodeId,
) -> bool {
    &&& 0 <= c < visited.len()
    &&& is_walk(g, rpath.reverse(), redges.reverse())
    &&& rpath.len() > 0
    &&& rpath.last() == visited[c]
    &&& rpath[0] == t
    &&& redges.len() + lvl[visited[c]] == lvl[t]
}

/// The position of a node id in a list.
fn position_of(v: &Vec<NodeId>, x: &NodeId) -> (r: Option<usize>)
    ensures
        match r {
            Some(i) => i < v@.len() && v@[i as int] == *x,
            None => !v@.contains(*x),
        },
{
    let mut i: usize = 0;
    while i < v.len()
        invariant
            i <= v@.len(),
            forall|j: int| 0 <= j < i ==> v@[j] != *x,
        decreases v@.len() - i,
    {
        if v[i] == *x {
            return Some(i);
        }
        i = i + 1;
    }
    None
}

/// Graph query engine for advanced operations.
pub struct GraphQuery {
    graph: Arc<GraphStore>,
}

impl GraphQuery {
    /// The graph that is queried.
    pub closed spec fn graph(&self) -> GraphView {
        (*self.graph)@
    }

    /// The graph that is queried is well formed.
    pub closed spec fn wf(&self) -> bool {
        (*self.graph).wf()
    }

    /// The graph store that is queried.
    pub fn store(&self) -> (r: &GraphStore)
        ensures
            r@ == self.graph(),
            self.wf() ==> r.wf(),
    {
        &*self.graph
    }

    /// Creates a query engine over a graph.
    pub fn new(graph: Arc<GraphStore>) -> (r: Self)
        requires
            (*graph).wf(),
        ensures
            r.graph() == (*graph)@,
            r.wf(),
    {
        GraphQuery { graph }
    }

    /// Builds the path to `visited[c]` by following parents back to the
    /// source.
    fn trace_back(
        visited: &Vec<NodeId>,
        parents: &Vec<Edge>,
        pidx: &Vec<usize>,
        c: usize,
        Ghost(g): Ghost<GraphView>,
        Ghost(lvl): Ghost<Map<NodeId, nat>>,
    ) -> (r: (Vec<NodeId>, Vec<Edge>))
        requires
            bfs_tree(g, visited@[0], visited@, parents@, pidx@, lvl),
            c < visited@.len(),
        ensures
            walk_between(g, r.0@, r.1@, visited@[0], visited@[c as int]),
            r.1@.len() == lvl[visited@[c as int]],
    {
        let ghost t = visited@[c as int];
        let mut rpath: Vec<NodeId> = Vec::new();
        rpath.push(visited[c]);
        let mut redges: Vec<Edge> = Vec::new();
        let mut cur: usize = c;
        proof {
            assert(rpath@.reverse() =~= seq![t]);
            assert(redges@.reverse() =~= Seq::<Edge>::empty());
        }
        while cur > 0
            invariant
                bfs_tree(g, visited@[0], visited@, parents@, pidx@, lvl),
                t == visited@[c as int],
                chain_ok(g, visited@, lvl, cur as int, rpath@, redges@, t),
            decreases cur,
        {
            let e = parents[cur - 1];
            let p = pidx[cur - 1];
            let ghost old_rpath = rpath@;
            let ghost old_redges = redges@;
            assert(parents@[cur - 1].target == visited@[cur as int]);
            rpath.push(visited[p]);
            redges.push(e);
            proof {
                let np = rpath@.reverse();
                let ne = redges@.reverse();
                assert(np =~= seq![visited@[p as int]] + old_rpath.reverse());
                assert(ne =~= seq![e] + old_redges.reverse());
                assert forall|i: int| 0 <= i < ne.len() implies #[trigger] ne[i].target == np[i
                    + 1] && ne[i].source == np[i] && list_at(g.outgoing, np[i]).contains(ne[i]) by {
                    if i > 0 {
                        assert(ne[i] == old_redges.reverse()[i - 1]);
                        assert(np[i] == old_rpath.reverse()[i - 1]);
                        assert(np[i + 1] == old_rpath.reverse()[i]);
                    } else {
                        assert(old_rpath.reverse()[0] == old_rpath.last());
                    }
                }
            }
            cur = p;
        }
        let mut path: Vec<NodeId> = Vec::new();
        let mut i: usize = rpath.len();
        while i > 0
            invariant
                i <= rpath@.len(),
                path@ == rpath@.reverse().subrange(0, rpath@.len() - i),
            decreases i,
        {
            i = i - 1;
            path.push(rpath[i]);
            assert(path@ =~= rpath@.reverse().subrange(0, rpath@.len() - i));
        }
        let mut edges: Vec<Edge> = Vec::new();
        let mut j: usize = redges.len();
        while j > 0
            invariant
                j <= redges@.len(),
                edges@ == redges@.reverse().subrange(0, redges@.len() - j),
            decreases j,
        {
            j = j - 1;
            edges.push(redges[j]);
            assert(edges@ =~= redges@.reverse().subrange(0, redges@.len() - j));
        }
        assert(path@ =~= rpath@.reverse());
        assert(edges@ =~= redges@.reverse());
        (path, edges)
    }

    /// The shortest path from `source` to `target` of at most `max_depth`
    /// edges (ten by default), found breadth-first; `None` when there is
    /// none.
    pub fn find_path(&self, source: &NodeId, target: &NodeId, max_depth: Option<usize>) -> (r:
        Option<PathResult>)
        requires
            self.wf(),
        ensures
            match r {
                Some(p) => {
                    &&& p.source == *source
                    &&& p.target == *target
                    &&& walk_between(self.graph(), p.path@, p.edges@, *source, *target)
                    &&& p.distance == p.edges@.len()
                    &&& p.distance <= depth_bound(max_depth)
                    &&& forall|path: Seq<NodeId>, edges: Seq<Edge>|
                        walk_between(self.graph(), path, edges, *source, *target)
                            ==> p.distance <= edges.len()
                },
                None => {
                    &&& *source != *target
                    &&& forall|path: Seq<NodeId>, edges: Seq<Edge>|
                        walk_between(self.graph(), path, edges, *source, *target) ==> edges.len()
                            > depth_bound(max_depth)
                },
            },
    {
        let bound: usize = match max_depth {
            Some(d) => d,
            None => 10,
        };
        let ghost g = self.graph();
        if *source == *target {
            let mut path: Vec<NodeId> = Vec::new();
            path.push(*source);
            return Some(
                PathResult { source: *source, target: *target, path, distance: 0, edges: Vec::new() },
            );
        }
        let store: &GraphStore = &*self.graph;
        assert(store.wf());
        assert(edges_keyed_by_source(g.outgoing));
        let mut visited: Vec<NodeId> = Vec::new();
        visited.push(*source);
        let mut parents: Vec<Edge> = Vec::new();
        let mut pidx: Vec<usize> = Vec::new();
        let mut frontier: Vec<usize> = Vec::new();
        frontier.push(0);
        let ghost mut lvl: Map<NodeId, nat> = Map::empty().insert(*source, 0nat);
        let mut depth: usize = 0;
        proof {
            assert forall|v: NodeId| lvl.contains_key(v) <==> visited@.contains(v) by {
                if visited@.contains(v) {
                    let k = choose|k: int| 0 <= k < visited@.len() && visited@[k] == v;
                }
                if v == *source {
                    assert(visited@[0] == v);
                }
            }
            assert(visited@[frontier@[0] as int] == *source);
            assert forall|v: NodeId| lvl.contains_key(v) && lvl[v] == depth implies exists|i: int|
                0 <= i < frontier@.len() && visited@[#[trigger] frontier@[i] as int] == v by {
                assert(v == *source);
                assert(visited@[frontier@[0] as int] == v);
            }
        }
        while depth < bound && frontier.len() > 0
            invariant
                g == self.graph(),
                edges_keyed_by_source(g.outgoing),
                g == store@,
                bound == depth_bound(max_depth),
                *source != *target,
                depth <= bound,
                bfs_tree(g, *source, visited@, parents@, pidx@, lvl),
                forall|v: NodeId| lvl.contains_key(v) ==> lvl[v] <= depth,
                forall|v: NodeId|
                    lvl.contains_key(v) && lvl[v] == depth ==> exists|i: int|
                        0 <= i < frontier@.len() && visited@[#[trigger] frontier@[i] as int] == v,
                forall|i: int|
                    0 <= i < frontier@.len() ==> #[trigger] frontier@[i] < visited@.len()
                        && lvl[visited@[frontier@[i] as int]] == depth,
                expanded_below(g, lvl, depth as nat),
                !lvl.contains_key(*target),
            decreases bound - depth,
        {
            let mut next: Vec<usize> = Vec::new();
            let mut fi: usize = 0;
            while fi < frontier.len()
                invariant
                    g == store@,
                    g == self.graph(),
                    edges_keyed_by_source(g.outgoing),

                    bound == depth_bound(max_depth),
                    *source != *target,
                    depth < bound,
                    bfs_tree(g, *source, visited@, parents@, pidx@, lvl),
                    forall|v: NodeId| lvl.contains_key(v) ==> lvl[v] <= depth + 1,
                    forall|v: NodeId|
                        lvl.contains_key(v) && lvl[v] == depth ==> exists|i: int|
                            0 <= i < frontier@.len() && visited@[#[trigger] frontier@[i] as int]
                                == v,
                    forall|v: NodeId|
                        lvl.contains_key(v) && lvl[v] == depth + 1 ==> exists|i: int|
                            0 <= i < next@.len() && visited@[#[trigger] next@[i] as int] == v,
                    forall|i: int|
                        0 <= i < frontier@.len() ==> #[trigger] frontier@[i] < visited@.len()
                            && lvl[visited@[frontier@[i] as int]] == depth,
                    forall|i: int|
                        0 <= i < next@.len() ==> #[trigger] next@[i] < visited@.len()
                            && lvl[visited@[next@[i] as int]] == depth + 1,
                    expanded_below(g, lvl, depth as nat),
                    fi <= frontier@.len(),
                    forall|f: int, e: Edge|
                        0 <= f < fi && #[trigger] list_at(
                            g.outgoing,
                            visited@[frontier@[f] as int],
                        ).contains(e) ==> lvl.contains_key(e.target) && lvl[e.target] <= depth + 1,
                    !lvl.contains_key(*target),
                decreases frontier@.len() - fi,
            {
                let ui = frontier[fi];
                let u = visited[ui];
                let out = store.get_outgoing_edges(&u);
                let mut ei: usize = 0;
                while ei < out.len()
                    invariant
                        g == store@,
                        g == self.graph(),
                        edges_keyed_by_source(g.outgoing),

                        bound == depth_bound(max_depth),
                        depth < bound,
                        *source != *target,
                        fi < frontier@.len(),
                        ui == frontier@[fi as int],
                        ui < visited@.len(),
                        u == visited@[ui as int],
                        lvl[u] == depth,
                        out@ == list_at(g.outgoing, u),
                        bfs_tree(g, *source, visited@, parents@, pidx@, lvl),
                        forall|v: NodeId| lvl.contains_key(v) ==> lvl[v] <= depth + 1,
                        forall|v: NodeId|
                            lvl.contains_key(v) && lvl[v] == depth ==> exists|i: int|
                                0 <= i < frontier@.len() && visited@[#[trigger] frontier@[i] as int]
                                    == v,
                        forall|v: NodeId|
                            lvl.contains_key(v) && lvl[v] == depth + 1 ==> exists|i: int|
                                0 <= i < next@.len() && visited@[#[trigger] next@[i] as int] == v,
                        forall|i: int|
                            0 <= i < frontier@.len() ==> #[trigger] frontier@[i] < visited@.len()
                                && lvl[visited@[frontier@[i] as int]] == depth,
                        forall|i: int|
                            0 <= i < next@.len() ==> #[trigger] next@[i] < visited@.len()
                                && lvl[visited@[next@[i] as int]] == depth + 1,
                        expanded_below(g, lvl, depth as nat),
                        forall|f: int, e: Edge|
                            0 <= f < fi && #[trigger] list_at(
                                g.outgoing,
                                visited@[frontier@[f] as int],
                            ).contains(e) ==> lvl.contains_key(e.target) && lvl[e.target] <= depth
                                + 1,
                        ei <= out@.len(),
                        forall|k: int|
                            0 <= k < ei ==> lvl.contains_key(#[trigger] out@[k].target)
                                && lvl[out@[k].target] <= depth + 1,
                        !lvl.contains_key(*target),
                    decreases out@.len() - ei,
                {
                    let e = out[ei];
                    let seen = position_of(&visited, &e.target);
                    if seen.is_none() {
                        let ghost old_visited = visited@;
                        let ghost old_lvl = lvl;
                        let ghost old_next = next@;
                        let ghost old_pidx = pidx@;
                        let ghost old_parents = parents@;
                        proof {
                            lvl = lvl.insert(e.target, (depth + 1) as nat);
                        }
                        let new_index = visited.len();
                        visited.push(e.target);
                        parents.push(e);
                        pidx.push(ui);
                        next.push(new_index);
                        proof {
                            assert(out@.contains(e)) by {
                                assert(out@[ei as int] == e);
                            }
                            assert(g.outgoing.contains_key(u));
                            assert(g.outgoing[u].contains(e));
                            assert(e.source == u);
                            assert forall|v: NodeId| lvl.contains_key(v) <==> visited@.contains(
                                v,
                            ) by {
                                if v == e.target {
                                    assert(visited@[new_index as int] == v);
                                } else {
                                    if visited@.contains(v) {
                                        let k = choose|k: int|
                                            0 <= k < visited@.len() && visited@[k] == v;
                                        assert(k < old_visited.len());
                                        assert(old_visited[k] == v);
                                        assert(old_visited.contains(v));
                                        assert(old_lvl.contains_key(v));
                                    }
                                    if lvl.contains_key(v) {
                                        assert(old_lvl.contains_key(v));
                                        assert(old_visited.contains(v));
                                        let k = choose|k: int|
                                            0 <= k < old_visited.len() && old_visited[k] == v;
                                        assert(visited@[k] == v);
                                    }
                                }
                            }
                            assert forall|i: int| 0 <= i < parents@.len() implies {
                                &&& pidx@[i] <= i
                                &&& #[trigger] parents@[i].target == visited@[i + 1]
                                &&& parents@[i].source == visited@[pidx@[i] as int]
                                &&& list_at(g.outgoing, visited@[pidx@[i] as int]).contains(
                                    parents@[i],
                                )
                                &&& lvl[visited@[i + 1]] == lvl[visited@[pidx@[i] as int]] + 1
                            } by {
                                if i < parents@.len() - 1 {
                                    assert(pidx@[i] == old_pidx[i]);
                                    assert(parents@[i] == old_parents[i]);
                                    assert(old_parents[i].target == old_visited[i + 1]);
                                    assert(old_pidx[i] <= i);
                                    assert(visited@[i + 1] == old_visited[i + 1]);
                                    assert(visited@[pidx@[i] as int] == old_visited[pidx@[i] as int]);
                                    assert(old_visited.contains(old_visited[i + 1]));
                                    assert(old_visited.contains(old_visited[pidx@[i] as int]));
                                    assert(old_lvl.contains_key(old_visited[i + 1]));
                                    assert(old_lvl.contains_key(old_visited[pidx@[i] as int]));
                                } else {
                                    assert(i == parents@.len() - 1);
                                    assert(pidx@[i] == ui);
                                    assert(parents@[i] == e);
                                    assert(visited@[ui as int] == u);
                                    assert(old_visited.contains(u)) by {
                                        assert(old_visited[ui as int] == u);
                                    }
                                    assert(u != e.target);
                                }
                            }
                            assert forall|v: NodeId|
                                lvl.contains_key(v) && lvl[v] == depth + 1 implies exists|i: int|
                                0 <= i < next@.len() && visited@[#[trigger] next@[i] as int]
                                    == v by {
                                if v == e.target {
                                    assert(visited@[next@[next@.len() - 1] as int] == v);
                                } else {
                                    let i = choose|i: int|
                                        0 <= i < old_next.len() && old_visited[#[trigger] old_next[i] as int]
                                            == v;
                                    assert(visited@[next@[i] as int] == v);
                                }
                            }
                        }
                        proof {
                            assert(visited@[0] == old_visited[0]);
                            assert(old_visited.contains(*source)) by {
                                assert(old_visited[0] == *source);
                            }
                            assert(lvl[*source] == 0);
                            assert(ui < old_visited.len());
                            assert forall|i: int| 0 <= i < parents@.len() implies pidx@[i] <= i by {
                                if i < parents@.len() - 1 {
                                    assert(pidx@[i] == old_pidx[i]);
                                    assert(old_parents[i].target == old_visited[i + 1]);
                                } else {
                                    assert(pidx@[i] == ui);
                                }
                            }
                            assert(bfs_tree(g, *source, visited@, parents@, pidx@, lvl));
                        }
                        if e.target == *target {
                            let (path, edges) = Self::trace_back(
                                &visited,
                                &parents,
                                &pidx,
                                new_index,
                                Ghost(g),
                                Ghost(lvl),
                            );
                            let distance = edges.len();
                            proof {
                                assert(visited@.contains(*source)) by {
                                    assert(visited@[0] == *source);
                                }
                                assert forall|path: Seq<NodeId>, edges: Seq<Edge>|
                                    walk_between(g, path, edges, *source, *target) implies distance
                                    <= edges.len() by {
                                    if edges.len() <= depth {
                                        lemma_walk_levels(
                                            g,
                                            lvl,
                                            depth as nat,
                                            *source,
                                            path,
                                            edges,
                                            edges.len() as int,
                                        );
                                    }
                                }
                            }
                            return Some(
                                PathResult { source: *source, target: *target, path, distance, edges },
                            );
                        }
                    } else {
                        proof {
                            let k = seen->0;
                            assert(visited@[k as int] == e.target);
                            assert(visited@.contains(e.target));
                        }
                    }
                    proof {
                        assert(out@[ei as int] == e);
                        assert(lvl.contains_key(e.target) && lvl[e.target] <= depth + 1);
                    }
                    ei = ei + 1;
                }
                fi = fi + 1;
            }
            frontier = next;
            depth = depth + 1;
        }
        proof {
            assert(visited@.contains(*source)) by {
                assert(visited@[0] == *source);
            }
            if depth < bound {
                assert(expanded_below(g, lvl, bound as nat));
            }
            assert forall|path: Seq<NodeId>, edges: Seq<Edge>|
                walk_between(g, path, edges, *source, *target) implies edges.len() > bound by {
                if edges.len() <= bound {
                    lemma_walk_levels(
                        g,
                        lvl,
                        bound as nat,
                        *source,
                        path,
                        edges,
                        edges.len() as int,
                    );
                }
            }
        }
        None
    }

    /// The references to a node: one per incoming edge whose source node is
    /// present, in edge order.
    pub fn find_references(&self, node_id: &NodeId) -> (r: Vec<SymbolReference>)
        ensures
            r@.len() == edges_with_source(list_at(self.graph().incoming, *node_id), self.graph().nodes).len(),
            forall|i: int|
                0 <= i < r@.len() ==> {
                    let e = #[trigger] edges_with_source(
                        list_at(self.graph().incoming, *node_id),
                        self.graph().nodes,
                    )[i];
                    let n = self.graph().nodes[e.source];
                    &&& r@[i].source_node == n
                    &&& r@[i].edge_kind == e.kind
                    &&& r@[i].location.file == n.file
                    &&& r@[i].location.span == n.span
                },
    {
        let store: &GraphStore = &*self.graph;
        let incoming = store.get_incoming_edges(node_id);
        let ghost g = self.graph();
        let ghost want = edges_with_source(incoming@, g.nodes);
        let mut refs: Vec<SymbolReference> = Vec::new();
        let mut i: usize = 0;
        while i < incoming.len()
            invariant
                g == store@,
                i <= incoming@.len(),
                refs@.len() == edges_with_source(incoming@.subrange(0, i as int), g.nodes).len(),
                forall|k: int|
                    0 <= k < refs@.len() ==> {
                        let e = #[trigger] edges_with_source(incoming@.subrange(0, i as int), g.nodes)[k];
                        let n = g.nodes[e.source];
                        &&& refs@[k].source_node == n
                        &&& refs@[k].edge_kind == e.kind
                        &&& refs@[k].location.file == n.file
                        &&& refs@[k].location.span == n.span
                    },
            decreases incoming@.len() - i,
        {
            let ghost before = edges_with_source(incoming@.subrange(0, i as int), g.nodes);
            assert(incoming@.subrange(0, i + 1).drop_last() =~= incoming@.subrange(0, i as int));
            let edge = incoming[i];
            match store.get_node(&edge.source) {
                Some(source_node) => {
                    let file = source_node.file.clone();
                    let span = source_node.span;
                    refs.push(
                        SymbolReference {
                            source_node,
                            edge_kind: edge.kind,
                            location: ReferenceLocation { file, span },
                        },
                    );
                    proof {
                        let after = edges_with_source(incoming@.subrange(0, i + 1), g.nodes);
                        assert(after == before.push(edge));
                        assert forall|k: int| 0 <= k < refs@.len() implies {
                            let e = #[trigger] after[k];
                            let n = g.nodes[e.source];
                            &&& refs@[k].source_node == n
                            &&& refs@[k].edge_kind == e.kind
                            &&& refs@[k].location.file == n.file
                            &&& refs@[k].location.span == n.span
                        } by {
                            if k < refs@.len() - 1 {
                                assert(after[k] == before[k]);
                            }
                        }
                    }
                },
                None => {},
            }
            i = i + 1;
        }
        assert(incoming@.subrange(0, incoming@.len() as int) =~= incoming@);
        refs
    }

    /// The dependencies of a node: one per outgoing edge of a kind that the
    /// dependency type includes and whose target node is present, in edge
    /// order.
    pub fn find_dependencies(&self, node_id: &NodeId, dependency_type: DependencyType) -> (r: Vec<
        SymbolDependency,
    >)
        ensures
            r@.len() == edges_with_target(
                list_at(self.graph().outgoing, *node_id),
                self.graph().nodes,
                dependency_type,
            ).len(),
            forall|i: int|
                0 <= i < r@.len() ==> {
                    let e = #[trigger] edges_with_target(
                        list_at(self.graph().outgoing, *node_id),
                        self.graph().nodes,
                        dependency_type,
                    )[i];
                    &&& r@[i].target_node == self.graph().nodes[e.target]
                    &&& r@[i].edge_kind == e.kind
                    &&& r@[i].dependency_type == dependency_type
                },
    {
        let store: &GraphStore = &*self.graph;
        let outgoing = store.get_outgoing_edges(node_id);
        let ghost g = self.graph();
        let mut deps: Vec<SymbolDependency> = Vec::new();
        let mut i: usize = 0;
        while i < outgoing.len()
            invariant
                g == store@,
                i <= outgoing@.len(),
                deps@.len() == edges_with_target(outgoing@.subrange(0, i as int), g.nodes, dependency_type).len(),
                forall|k: int|
                    0 <= k < deps@.len() ==> {
                        let e = #[trigger] edges_with_target(
                            outgoing@.subrange(0, i as int),
                            g.nodes,
                            dependency_type,
                        )[k];
                        &&& deps@[k].target_node == g.nodes[e.target]
                        &&& deps@[k].edge_kind == e.kind
                        &&& deps@[k].dependency_type == dependency_type
                    },
            decreases outgoing@.len() - i,
        {
            let ghost before = edges_with_target(outgoing@.subrange(0, i as int), g.nodes, dependency_type);
            assert(outgoing@.subrange(0, i + 1).drop_last() =~= outgoing@.subrange(0, i as int));
            let edge = outgoing[i];
            let include_edge = match dependency_type {
                DependencyType::Direct => true,
                DependencyType::Calls => edge.kind == EdgeKind::Calls,
                DependencyType::Imports => edge.kind == EdgeKind::Imports,
                DependencyType::Reads => edge.kind == EdgeKind::Reads,
                DependencyType::Writes => edge.kind == EdgeKind::Writes,
            };
            if include_edge {
                match store.get_node(&edge.target) {
                    Some(target_node) => {
                        deps.push(
                            SymbolDependency { target_node, edge_kind: edge.kind, dependency_type },
                        );
                        proof {
                            let after = edges_with_target(
                                outgoing@.subrange(0, i + 1),
                                g.nodes,
                                dependency_type,
                            );
                            assert(after == before.push(edge));
                            assert forall|k: int| 0 <= k < deps@.len() implies {
                                let e = #[trigger] after[k];
                                &&& deps@[k].target_node == g.nodes[e.target]
                                &&& deps@[k].edge_kind == e.kind
                                &&& deps@[k].dependency_type == dependency_type
                            } by {
                                if k < deps@.len() - 1 {
                                    assert(after[k] == before[k]);
                                }
                            }
                        }
                    },
                    None => {},
                }
            }
            i = i + 1;
        }
        assert(outgoing@.subrange(0, outgoing@.len() as int) =~= outgoing@);
        deps
    }
}

/// The edges of the list whose source node is present, in order.
pub open spec fn edges_with_source(s: Seq<Edge>, nodes: Map<NodeId, Node>) -> Seq<Edge>
    decreases s.len(),
{
    if s.len() == 0 {
        s
    } else {
        let rest = edges_with_source(s.drop_last(), nodes);
        if nodes.contains_key(s.last().source) {
            rest.push(s.last())
        } else {
            rest
        }
    }
}

/// The edges of the list of a kind that the dependency type includes and
/// whose target node is present, in order.
pub open spec fn edges_with_target(s: Seq<Edge>, nodes: Map<NodeId, Node>, t: DependencyType) -> Seq<
    Edge,
>
    decreases s.len(),
{
    if s.len() == 0 {
        s
    } else {
        let rest = edges_with_target(s.drop_last(), nodes, t);
        if dependency_includes(t, s.last().kind) && nodes.contains_key(s.last().target) {
            rest.push(s.last())
        } else {
            rest
        }
    }
}


/// Whether a symbol name matches a search pattern: as a regular expression,
/// ignoring case, when the pattern is one; otherwise when the lowercased
/// name contains the lowercased pattern.
pub open spec fn name_matches(pattern: Seq<char>, name: Seq<char>) -> bool {
    match regex_match_result("(?i)"@ + pattern, name) {
        Some(b) => b,
        None => contains_seq(lowercase_of(name), lowercase_of(pattern)),
    }
}

/// A node id under a symbol name that the search matches: the name matches
/// the pattern, the node is present, and its kind is one of the requested
/// kinds (if any were requested).
pub open spec fn symbol_match(
    g: GraphView,
    pattern: Seq<char>,
    types: Option<Seq<NodeKind>>,
    name: Seq<char>,
    id: NodeId,
) -> bool {
    &&& g.symbols.contains_key(name)
    &&& g.symbols[name].contains(id)
    &&& name_matches(pattern, name)
    &&& g.nodes.contains_key(id)
    &&& match types {
        Some(ts) => ts.contains(g.nodes[id].kind),
        None => true,
    }
}

/// A search result describes a present node with its reference and
/// dependency counts.
pub open spec fn info_ok(g: GraphView, info: SymbolInfo) -> bool {
    &&& g.nodes.contains_key(info.node.id)
    &&& g.nodes[info.node.id] == info.node
    &&& info.references_count == list_at(g.incoming, info.node.id).len()
    &&& info.dependencies_count == list_at(g.outgoing, info.node.id).len()
}

/// The number of results a search stops at (fifty by default; a limit of
/// zero still admits the first match).
pub open spec fn result_cap(limit: Option<usize>) -> nat {
    match limit {
        Some(l) => if l == 0 {
            1
        } else {
            l as nat
        },
        None => 50,
    }
}

/// The requested kinds, by value.
pub open spec fn kinds_view(types: Option<Vec<NodeKind>>) -> Option<Seq<NodeKind>> {
    match types {
        Some(v) => Some(v@),
        None => None,
    }
}

/// Whether a kind is in a list.
fn kind_in(types: &Vec<NodeKind>, k: NodeKind) -> (r: bool)
    ensures
        r == types@.contains(k),
{
    let mut i: usize = 0;
    while i < types.len()
        invariant
            i <= types@.len(),
            forall|j: int| 0 <= j < i ==> types@[j] != k,
        decreases types@.len() - i,
    {
        if types[i] == k {
            assert(types@[i as int] == k);
            return true;
        }
        i = i + 1;
    }
    false
}

impl GraphQuery {
    /// Searches symbols whose name matches the pattern (a regular
    /// expression ignoring case, or else a substring ignoring case; see
    /// `name_matches`), optionally only of some kinds; the symbol index is walked in its own
    /// order and the search stops once `limit` results (fifty by default)
    /// are collected.
    pub fn search_symbols(
        &self,
        pattern: &str,
        symbol_types: Option<Vec<NodeKind>>,
        limit: Option<usize>,
    ) -> (r: Vec<SymbolInfo>)
        requires
            self.wf(),
        ensures
            forall|i: int|
                0 <= i < r@.len() ==> info_ok(self.graph(), #[trigger] r@[i]) && exists|k: Seq<char>|
                    symbol_match(self.graph(), pattern@, kinds_view(symbol_types), k, r@[i].node.id),
            r@.len() <= result_cap(limit),
            r@.len() < result_cap(limit) ==> forall|k: Seq<char>, id: NodeId|
                symbol_match(self.graph(), pattern@, kinds_view(symbol_types), k, id)
                    ==> exists|i: int| 0 <= i < r@.len() && (#[trigger] r@[i]).node.id == id,
    {
        let cap: usize = match limit {
            Some(l) => if l == 0 {
                1
            } else {
                l
            },
            None => 50,
        };
        let ghost g = self.graph();
        let ghost types = kinds_view(symbol_types);
        let store: &GraphStore = &*self.graph;
        assert(store.wf());
        let lowered = to_lowercase(pattern);
        let pat = chars_of(lowered.as_str());
        let mut ci = String::new();
        push_str(&mut ci, "(?i)");
        push_str(&mut ci, pattern);
        proof {
            reveal_strlit("(?i)");
        }
        let entries = name_table_entries(&store.symbol_index);
        let mut results: Vec<SymbolInfo> = Vec::new();
        let mut i: usize = 0;
        while i < entries.len() && results.len() < cap
            invariant
                g == store@,
                g == self.graph(),
                store.wf(),
                types == kinds_view(symbol_types),
                cap == result_cap(limit),
                ci@ == "(?i)"@ + pattern@,
                pat@ == lowercase_of(pattern@),
                i <= entries@.len(),
                results@.len() <= cap,
                entries@.len() == g.symbols.len(),
                forall|a: int|
                    0 <= a < entries@.len() ==> g.symbols.contains_key(#[trigger] entries@[a].0@)
                        && g.symbols[entries@[a].0@] == entries@[a].1@,
                forall|k: Seq<char>|
                    g.symbols.contains_key(k) ==> exists|a: int| 0 <= a < entries@.len() && #[trigger] entries@[a].0@ == k,
                forall|x: int|
                    0 <= x < results@.len() ==> info_ok(g, #[trigger] results@[x]) && exists|k: Seq<char>|
                        symbol_match(g, pattern@, types, k, results@[x].node.id),
                results@.len() < cap ==> forall|a: int, id: NodeId|
                    0 <= a < i && #[trigger] symbol_match(g, pattern@, types, entries@[a].0@, id)
                        ==> exists|x: int| 0 <= x < results@.len() && (#[trigger] results@[x]).node.id == id,
            decreases entries@.len() - i,
        {
            let ghost k = entries@[i as int].0@;
            let hit = match regex_is_match(ci.as_str(), entries[i].0.as_str()) {
                Some(b) => b,
                None => {
                    let name_lower = to_lowercase(entries[i].0.as_str());
                    let nl = chars_of(name_lower.as_str());
                    chars_contains(nl.as_slice(), pat.as_slice())
                },
            };
            if hit {
                let ids = &entries[i].1;
                let mut j: usize = 0;
                while j < ids.len() && results.len() < cap
                    invariant
                        g == store@,
                        g == self.graph(),
                        store.wf(),
                        types == kinds_view(symbol_types),
                        cap == result_cap(limit),
                        pat@ == lowercase_of(pattern@),
                        i < entries@.len(),
                        k == entries@[i as int].0@,
                        ids@ == entries@[i as int].1@,
                        g.symbols.contains_key(k),
                        g.symbols[k] == ids@,
                        name_matches(pattern@, k),
                        j <= ids@.len(),
                        results@.len() <= cap,
                        forall|x: int|
                            0 <= x < results@.len() ==> info_ok(g, #[trigger] results@[x]) && exists|
                                k2: Seq<char>,
                            | symbol_match(g, pattern@, types, k2, results@[x].node.id),
                        results@.len() < cap ==> forall|a: int, id: NodeId|
                            0 <= a < i && #[trigger] symbol_match(g, pattern@, types, entries@[a].0@, id)
                                ==> exists|x: int|
                                0 <= x < results@.len() && (#[trigger] results@[x]).node.id == id,
                        results@.len() < cap ==> forall|b: int|
                            0 <= b < j && symbol_match(g, pattern@, types, k, #[trigger] ids@[b])
                                ==> exists|x: int|
                                0 <= x < results@.len() && (#[trigger] results@[x]).node.id == ids@[b],
                    decreases ids@.len() - j,
                {
                    let node_id = ids[j];
                    let ghost old_results = results@;
                    match store.get_node(&node_id) {
                        Some(node) => {
                            let wanted = match &symbol_types {
                                Some(types_vec) => kind_in(types_vec, node.kind),
                                None => true,
                            };
                            if wanted {
                                let references_count = store.get_incoming_edges(&node_id).len();
                                let dependencies_count = store.get_outgoing_edges(&node_id).len();
                                results.push(SymbolInfo { node, references_count, dependencies_count });
                                proof {
                                    assert(ids@.contains(node_id)) by {
                                        assert(ids@[j as int] == node_id);
                                    }
                                    assert(symbol_match(g, pattern@, types, k, node_id));
                                    assert(results@[results@.len() - 1].node.id == node_id);
                                    assert forall|x: int|
                                        0 <= x < results@.len() implies info_ok(g, #[trigger] results@[x])
                                        && exists|k2: Seq<char>|
                                        symbol_match(g, pattern@, types, k2, results@[x].node.id) by {
                                        if x < results@.len() - 1 {
                                            assert(results@[x] == old_results[x]);
                                        }
                                    }
                                    if results@.len() < cap {
                                    assert forall|a: int, id: NodeId|
                                        0 <= a < i && #[trigger] symbol_match(g, pattern@, types, entries@[a].0@, id)
                                        implies exists|x: int|
                                        0 <= x < results@.len() && (#[trigger] results@[x]).node.id == id by {
                                        let x = choose|x: int|
                                            0 <= x < old_results.len() && (#[trigger] old_results[x]).node.id == id;
                                        assert(results@[x] == old_results[x]);
                                    }
                                    assert forall|b: int|
                                        0 <= b < j + 1 && symbol_match(g, pattern@, types, k, #[trigger] ids@[b])
                                        implies exists|x: int|
                                        0 <= x < results@.len() && (#[trigger] results@[x]).node.id == ids@[b] by {
                                        if b < j {
                                            let x = choose|x: int|
                                                0 <= x < old_results.len() && (#[trigger] old_results[x]).node.id == ids@[b];
                                            assert(results@[x] == old_results[x]);
                                        } else {
                                            assert(results@[results@.len() - 1].node.id == ids@[b]);
                                        }
                                    }
                                    }
                                }
                            } else {
                                proof {
                                    assert(!symbol_match(g, pattern@, types, k, ids@[j as int]));
                                }
                            }
                        },
                        None => {
                            proof {
                                assert(!symbol_match(g, pattern@, types, k, ids@[j as int]));
                            }
                        },
                    }
                    j = j + 1;
                }
                proof {
                    if results@.len() < cap {
                        assert forall|a: int, id: NodeId|
                            0 <= a < i + 1 && #[trigger] symbol_match(g, pattern@, types, entries@[a].0@, id)
                            implies exists|x: int|
                            0 <= x < results@.len() && (#[trigger] results@[x]).node.id == id by {
                            if a == i {
                                let b = choose|b: int| 0 <= b < ids@.len() && ids@[b] == id;
                                assert(symbol_match(g, pattern@, types, k, ids@[b]));
                            }
                        }
                    }
                }
            } else {
                proof {
                    if results@.len() < cap {
                    assert forall|a: int, id: NodeId|
                        0 <= a < i + 1 && #[trigger] symbol_match(g, pattern@, types, entries@[a].0@, id)
                        implies exists|x: int|
                        0 <= x < results@.len() && (#[trigger] results@[x]).node.id == id by {
                        if a == i {
                            assert(false);
                        }
                    }
                    }
                }
            }
            i = i + 1;
        }
        proof {
            if results@.len() < cap {
                assert forall|k: Seq<char>, id: NodeId|
                    symbol_match(g, pattern@, types, k, id) implies exists|x: int|
                    0 <= x < results@.len() && (#[trigger] results@[x]).node.id == id by {
                    let a = choose|a: int| 0 <= a < entries@.len() && #[trigger] entries@[a].0@ == k;
                    assert(symbol_match(g, pattern@, types, entries@[a].0@, id));
                }
            }
        }
        results
    }
}

} // verus!
