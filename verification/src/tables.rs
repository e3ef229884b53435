//! The concurrent hash tables (`dashmap::DashMap`) that back the code graph.
//!
//! Each table's contents is named by a spec function per key and value type;
//! the functions below are thin calls of `DashMap`'s methods whose contracts
//! say, over those names, what the method does to the contents and returns.
//! A `DashMap` behaves as a hash map over `Eq + Hash` keys; all tables here
//! are reached through `&mut` whenever they change.

use crate::ast::{Edge, Node, NodeId, NodeKind};
use dashmap::DashMap;
use vstd::prelude::*;

verus! {

/// `dashmap::DashMap`.
#[verifier::external_type_specification]
#[verifier::external_body]
#[verifier::reject_recursive_types(K)]
#[verifier::reject_recursive_types(V)]
#[verifier::reject_recursive_types(S)]
pub struct ExDashMap<K, V, S>(DashMap<K, V, S>);

/// The entries of a table from node ids to nodes.
pub uninterp spec fn node_table(m: DashMap<NodeId, Node>) -> Map<NodeId, Node>;

/// The entries of a table from node ids to edge lists.
pub uninterp spec fn edge_table(m: DashMap<NodeId, Vec<Edge>>) -> Map<NodeId, Seq<Edge>>;

/// The entries of a table from strings (by their characters) to id lists.
pub uninterp spec fn name_table(m: DashMap<String, Vec<NodeId>>) -> Map<Seq<char>, Seq<NodeId>>;

/// The entries of a table from node kinds to id lists.
pub uninterp spec fn kind_table(m: DashMap<NodeKind, Vec<NodeId>>) -> Map<NodeKind, Seq<NodeId>>;

/// Contents of tables without entries.
pub open spec fn empty_node_table() -> Map<NodeId, Node> {
    Map::empty()
}

pub open spec fn empty_edge_table() -> Map<NodeId, Seq<Edge>> {
    Map::empty()
}

pub open spec fn empty_name_table() -> Map<Seq<char>, Seq<NodeId>> {
    Map::empty()
}

pub open spec fn empty_kind_table() -> Map<NodeKind, Seq<NodeId>> {
    Map::empty()
}

// ---- node ids to nodes ----

/// `DashMap::new`: an empty table.
#[verifier::external_body]
pub(crate) fn node_table_new() -> (r: DashMap<NodeId, Node>)
    ensures
        node_table(r) == empty_node_table(),
{
    DashMap::new()
}

/// `DashMap::get`, with the value cloned out of the guard.
#[verifier::external_body]
pub(crate) fn node_table_get(m: &DashMap<NodeId, Node>, k: &NodeId) -> (r: Option<Node>)
    ensures
        node_table(*m).contains_key(*k) ==> r == Some(node_table(*m)[*k]),
        !node_table(*m).contains_key(*k) ==> r is None,
{
    match m.get(k) {
        Some(entry) => Some(entry.value().clone()),
        None => None,
    }
}

/// `DashMap::insert`: the key now maps to the value.
#[verifier::external_body]
pub(crate) fn node_table_insert(m: &mut DashMap<NodeId, Node>, k: NodeId, v: Node)
    ensures
        node_table(*final(m)) == node_table(*old(m)).insert(k, v),
{
    m.insert(k, v);
}

/// `DashMap::remove`: the key is gone, its value is handed back.
#[verifier::external_body]
pub(crate) fn node_table_remove(m: &mut DashMap<NodeId, Node>, k: &NodeId) -> (r: Option<Node>)
    ensures
        node_table(*final(m)) == node_table(*old(m)).remove(*k),
        node_table(*old(m)).contains_key(*k) ==> r == Some(node_table(*old(m))[*k]),
        !node_table(*old(m)).contains_key(*k) ==> r is None,
{
    match m.remove(k) {
        Some((_, v)) => Some(v),
        None => None,
    }
}

/// `DashMap::clear`: no entries are left.
#[verifier::external_body]
pub(crate) fn node_table_clear(m: &mut DashMap<NodeId, Node>)
    ensures
        node_table(*final(m)) == empty_node_table(),
{
    m.clear();
}

/// `DashMap::len`: the number of entries.
#[verifier::external_body]
pub(crate) fn node_table_len(m: &DashMap<NodeId, Node>) -> (r: usize)
    ensures
        r == node_table(*m).len(),
{
    m.len()
}

// ---- node ids to edge lists ----

/// `DashMap::new`: an empty table.
#[verifier::external_body]
pub(crate) fn edge_table_new() -> (r: DashMap<NodeId, Vec<Edge>>)
    ensures
        edge_table(r) == empty_edge_table(),
{
    DashMap::new()
}

/// `DashMap::get`, with the list cloned out of the guard.
#[verifier::external_body]
pub(crate) fn edge_table_get(m: &DashMap<NodeId, Vec<Edge>>, k: &NodeId) -> (r: Option<Vec<Edge>>)
    ensures
        edge_table(*m).contains_key(*k) ==> r is Some && r->0@ == edge_table(*m)[*k],
        !edge_table(*m).contains_key(*k) ==> r is None,
{
    match m.get(k) {
        Some(entry) => Some(entry.value().clone()),
        None => None,
    }
}

/// `DashMap::insert`: the key now maps to the list.
#[verifier::external_body]
pub(crate) fn edge_table_insert(m: &mut DashMap<NodeId, Vec<Edge>>, k: NodeId, v: Vec<Edge>)
    ensures
        edge_table(*final(m)) == edge_table(*old(m)).insert(k, v@),
{
    m.insert(k, v);
}

/// `DashMap::remove`: the key is gone.
#[verifier::external_body]
pub(crate) fn edge_table_remove(m: &mut DashMap<NodeId, Vec<Edge>>, k: &NodeId)
    ensures
        edge_table(*final(m)) == edge_table(*old(m)).remove(*k),
{
    m.remove(k);
}

/// `DashMap::clear`: no entries are left.
#[verifier::external_body]
pub(crate) fn edge_table_clear(m: &mut DashMap<NodeId, Vec<Edge>>)
    ensures
        edge_table(*final(m)) == empty_edge_table(),
{
    m.clear();
}

/// `DashMap::iter`, each entry copied out: every entry once, in the table's
/// own (unspecified) order.
#[verifier::external_body]
pub(crate) fn edge_table_entries(m: &DashMap<NodeId, Vec<Edge>>) -> (r: Vec<(NodeId, Vec<Edge>)>)
    ensures
        r@.len() == edge_table(*m).len(),
        forall|i: int|
            0 <= i < r@.len() ==> edge_table(*m).contains_key(#[trigger] r@[i].0)
                && edge_table(*m)[r@[i].0] == r@[i].1@,
        forall|k: NodeId|
            edge_table(*m).contains_key(k) ==> exists|i: int| 0 <= i < r@.len() && #[trigger] r@[i].0 == k,
        forall|i: int, j: int| 0 <= i < j < r@.len() ==> r@[i].0 != r@[j].0,
{
    m.iter().map(|e| (*e.key(), e.value().clone())).collect()
}

// ---- strings to id lists ----

/// `DashMap::new`: an empty table.
#[verifier::external_body]
pub(crate) fn name_table_new() -> (r: DashMap<String, Vec<NodeId>>)
    ensures
        name_table(r) == empty_name_table(),
{
    DashMap::new()
}

/// `DashMap::get`, with the list cloned out of the guard.
#[verifier::external_body]
pub(crate) fn name_table_get(m: &DashMap<String, Vec<NodeId>>, k: &str) -> (r: Option<Vec<NodeId>>)
    ensures
        name_table(*m).contains_key(k@) ==> r is Some && r->0@ == name_table(*m)[k@],
        !name_table(*m).contains_key(k@) ==> r is None,
{
    match m.get(k) {
        Some(entry) => Some(entry.value().clone()),
        None => None,
    }
}

/// `DashMap::insert`: the key now maps to the list.
#[verifier::external_body]
pub(crate) fn name_table_insert(m: &mut DashMap<String, Vec<NodeId>>, k: String, v: Vec<NodeId>)
    ensures
        name_table(*final(m)) == name_table(*old(m)).insert(k@, v@),
{
    m.insert(k, v);
}

/// `DashMap::clear`: no entries are left.
#[verifier::external_body]
pub(crate) fn name_table_clear(m: &mut DashMap<String, Vec<NodeId>>)
    ensures
        name_table(*final(m)) == empty_name_table(),
{
    m.clear();
}

/// `DashMap::len`: the number of entries.
#[verifier::external_body]
pub(crate) fn name_table_len(m: &DashMap<String, Vec<NodeId>>) -> (r: usize)
    ensures
        r == name_table(*m).len(),
{
    m.len()
}

/// `DashMap::iter`, each entry copied out: every entry once, in the table's
/// own (unspecified) order.
#[verifier::external_body]
pub(crate) fn name_table_entries(m: &DashMap<String, Vec<NodeId>>) -> (r: Vec<(String, Vec<NodeId>)>)
    ensures
        r@.len() == name_table(*m).len(),
        forall|i: int|
            0 <= i < r@.len() ==> name_table(*m).contains_key(#[trigger] r@[i].0@)
                && name_table(*m)[r@[i].0@] == r@[i].1@,
        forall|k: Seq<char>|
            name_table(*m).contains_key(k) ==> exists|i: int| 0 <= i < r@.len() && #[trigger] r@[i].0@ == k,
        forall|i: int, j: int| 0 <= i < j < r@.len() ==> r@[i].0@ != r@[j].0@,
{
    m.iter().map(|e| (e.key().clone(), e.value().clone())).collect()
}

// ---- node kinds to id lists ----

/// `DashMap::new`: an empty table.
#[verifier::external_body]
pub(crate) fn kind_table_new() -> (r: DashMap<NodeKind, Vec<NodeId>>)
    ensures
        kind_table(r) == empty_kind_table(),
{
    DashMap::new()
}

/// `DashMap::get`, with the list cloned out of the guard.
#[verifier::external_body]
pub(crate) fn kind_table_get(m: &DashMap<NodeKind, Vec<NodeId>>, k: &NodeKind) -> (r: Option<Vec<NodeId>>)
    ensures
        kind_table(*m).contains_key(*k) ==> r is Some && r->0@ == kind_table(*m)[*k],
        !kind_table(*m).contains_key(*k) ==> r is None,
{
    match m.get(k) {
        Some(entry) => Some(entry.value().clone()),
        None => None,
    }
}

/// `DashMap::insert`: the key now maps to the list.
#[verifier::external_body]
pub(crate) fn kind_table_insert(m: &mut DashMap<NodeKind, Vec<NodeId>>, k: NodeKind, v: Vec<NodeId>)
    ensures
        kind_table(*final(m)) == kind_table(*old(m)).insert(k, v@),
{
    m.insert(k, v);
}

/// `DashMap::clear`: no entries are left.
#[verifier::external_body]
pub(crate) fn kind_table_clear(m: &mut DashMap<NodeKind, Vec<NodeId>>)
    ensures
        kind_table(*final(m)) == empty_kind_table(),
{
    m.clear();
}

/// `DashMap::iter`, each entry copied out: every entry once, in the table's
/// own (unspecified) order.
#[verifier::external_body]
pub(crate) fn kind_table_entries(m: &DashMap<NodeKind, Vec<NodeId>>) -> (r: Vec<(NodeKind, Vec<NodeId>)>)
    ensures
        r@.len() == kind_table(*m).len(),
        forall|i: int|
            0 <= i < r@.len() ==> kind_table(*m).contains_key(#[trigger] r@[i].0)
                && kind_table(*m)[r@[i].0] == r@[i].1@,
        forall|k: NodeKind|
            kind_table(*m).contains_key(k) ==> exists|i: int| 0 <= i < r@.len() && #[trigger] r@[i].0 == k,
        forall|i: int, j: int| 0 <= i < j < r@.len() ==> r@[i].0 != r@[j].0,
{
    m.iter().map(|e| (*e.key(), e.value().clone())).collect()
}

} // verus!
