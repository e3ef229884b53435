//! Cross-language linkers: each finds edges between nodes of different
//! languages (REST routes to handlers, SQL queries to tables).

use crate::ast::{Edge, Node};
use vstd::prelude::*;

verus! {

/// A cross-language linker.
pub trait Linker {
    /// The linker's name.
    fn name(&self) -> (r: &'static str);

    /// The cross-language edges among the given nodes.
    fn find_edges(&self, nodes: &[Node]) -> (r: Result<Vec<Edge>, String>);
}

/// Links REST paths to their controllers.
pub struct RestLinker;

/// Links SQL queries to their tables.
pub struct SqlLinker;

impl Linker for RestLinker {
    /// `REST`.
    fn name(&self) -> (r: &'static str)
        ensures
            r@ == "REST"@,
    {
        "REST"
    }

    /// No REST edges are found yet: the result is always empty.
    fn find_edges(&self, nodes: &[Node]) -> (r: Result<Vec<Edge>, String>)
        ensures
            r matches Ok(v) && v@.len() == 0,
    {
        Ok(Vec::new())
    }
}

impl Linker for SqlLinker {
    /// `SQL`.
    fn name(&self) -> (r: &'static str)
        ensures
            r@ == "SQL"@,
    {
        "SQL"
    }

    /// No SQL edges are found yet: the result is always empty.
    fn find_edges(&self, nodes: &[Node]) -> (r: Result<Vec<Edge>, String>)
        ensures
            r matches Ok(v) && v@.len() == 0,
    {
        Ok(Vec::new())
    }
}

} // verus!
