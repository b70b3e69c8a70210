# claw_runtime

Runtime support for a coding agent, written in Verus.  The functions under
`src/` carry `requires`/`ensures` contracts that Verus proves, with two
exceptions: the small wrappers marked `#[verifier::external_body]`, whose
contracts about the outside crates and the standard library they call are
trusted, not proved; and the IDE bridge's `new`, `is_connected` and `connect`,
whose connection state is shared through a mutex and is left without a
contract.

- `src/text.rs`: splitting, trimming, line breaking, decimal numbers and
  case-insensitive keyword matching, each with its specification.
- `src/str_map.rs`: string-keyed maps kept in key order (the order of
  `String`, proved a strict total order).
- `src/json.rs`: a plain model of JSON documents; parsing and string quoting
  are done by `serde_json`.
- `src/file_ops.rs`, `src/pdf.rs`, `src/notebook.rs`, `src/edit.rs`: the read,
  write and edit tools: size limits, media types, line windows, PDF page
  ranges, notebook rendering, replacements and patches.
- `src/search.rs`, `src/glob_search.rs`: grep-style search over candidate
  files, and the ordering and capping of glob matches.
- `src/types.rs`: message types of the model API, effort levels and token
  usage.
- `src/debug.rs`, `src/feature_flags.rs`, `src/ide_bridge.rs`: debug
  category filters, feature flags with overrides, the IDE connection.
- `src/mcp_transport.rs`: JSON-RPC request bodies, response parsing and
  server-sent event payloads of the remote MCP transports.
- `src/usage_dashboard.rs`: civil dates of day counts and report markup.

`app/` holds what needs the file system, the network, process-wide state or
floating point: the tools as the agent calls them, the MCP transports, the
usage report and the serde forms of the library's types.

`tests/` exercises the library on concrete values.
