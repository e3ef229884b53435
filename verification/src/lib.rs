//! Code-intelligence core: a universal AST, an in-memory code graph with
//! path and symbol queries, and the decision logic of an MCP test harness
//! (test bookkeeping, retry and circuit-breaker policies, report naming).

pub mod text;
pub mod ast;
pub mod tables;
pub mod graph;
pub mod errors;
pub mod recovery;
pub mod executor;
pub mod args;
pub mod content;
pub mod branding;
pub mod resources;
pub mod transport;
pub mod counts;
pub mod logging;
pub mod prompts;
pub mod tools;
pub mod tool_calls;
pub mod validation;
pub mod environment;
pub mod reports;
pub mod cli;
pub mod test_case;
pub mod scripts;
pub mod linkers;
pub mod metrics;
pub mod patterns;
pub mod trends;
pub mod buckets;
pub mod text_search;
pub mod profiles;
pub mod watch;
pub mod laws;

use vstd::prelude::*;

verus! {

/// The name of the test harness.
pub const NAME: &'static str = "MOTH";

/// The full name of the test harness.
pub const FULL_NAME: &'static str = "MOdel context protocol Test Harness";

/// The MCP protocol version this harness supports.
pub const MCP_PROTOCOL_VERSION: &'static str = "2025-06-18";

/// Default timeout for MCP operations, in seconds.
pub const DEFAULT_TIMEOUT_SECS: u64 = 30;

/// Maximum concurrent test executions by default.
pub const DEFAULT_MAX_CONCURRENCY: usize = 4;

} // verus!
