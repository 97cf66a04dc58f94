# mcp_inspector_mcp

An inspector for Model Context Protocol (MCP) servers: it runs as an MCP server
itself and offers tools that list and call the tools, resources and prompts of
other MCP servers, show the sampling requests and log messages they send, check
their health, and run batch test suites against them.

## Layout

- `src/` — the verified library (Verus). Every function carries a contract that
  Verus proves:
  - `models/` — JSON documents, configuration profiles, test suites, sampling
    log entries, log messages, metrics and health records, with their
    validation rules;
  - `services/` — assertion evaluation and test decisions, the sampling log
    (query rules, the in-memory backend, the on-disk key and rotation rules),
    log message filtering, response caching, timing, health history, metrics
    summaries, the HTML report, configuration diffs, templates and profiles;
  - `client/` — what is read from the messages exchanged with target servers,
    the arguments sent with a tool call, and which configured server a request
    goes to;
  - `order.rs`, `text.rs`, `error.rs`, `time.rs` — ordering by name, string
    helpers, error texts and the clock.
- `tests/` — tests of the library.
- `app/` — the `mcp_inspector` command: argument parsing, files, the sled
  database, the MCP client and server (rmcp), the async test runner, and the
  report figures that need floating point.
