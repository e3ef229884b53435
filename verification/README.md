# gcore

A verified library for code intelligence over a graph of source symbols, and
for the decisions of an MCP test harness.

- `src/` is the library, written in Verus: every function carries a contract
  that Verus proves.  It holds the universal AST and node identifiers, the
  code graph with its path, reference, dependency and symbol queries, the MCP
  catalogs (prompts, resources, tools) and the tool calls over the graph, text
  and regular-expression search in content, and the harness logic: test
  bookkeeping, retry and circuit-breaker policy, error collection, patterns,
  trends and time buckets, report validation and rendering, profiles and
  watch decisions.  `src/laws.rs` states the properties that relate several
  operations (what a read gives back of a write, what the catalogs promise
  of the requests served, how errors are counted).
- `app/` is the `moth` command around it: argument parsing, files, the
  terminal, the clock, JSON and YAML, and the MCP server's JSON framing.
- `tests/` exercises the library on concrete values.
