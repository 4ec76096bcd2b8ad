# lmlang

A verified core for lmlang, a language whose programs are dual graphs
edited by AI agents. There is a compute graph of typed operation nodes with
data and control edges, and a semantic graph of modules, functions, specs,
tests and docs. Agents edit the graph through a JSON API and take per-function
locks. An autonomous runner plans edits with an LLM, and an observability view
shows both layers.

## Layout

- `src/`: the library, written in Verus. Each public function carries a
  `requires`/`ensures` contract that Verus proves.
  - `program_graph.rs`: the dual graph over petgraph's `StableGraph`
    (reached through `graph_store.rs`). It covers node, edge, function and
    module edits, semantic summaries and the propagation flush.
  - `module.rs`, `type_registry.rs`: the module tree and the type registry.
  - `edits.rs`, `edit_events.rs`: mutations, recorded edit commands, and the
    propagation events that edits raise.
  - `lock_manager.rs`, `lock_api.rs`, `agent_registry.rs`: function locks
    and agent sessions over `DashMap`.
  - `observability.rs`, `observability_graph.rs`: the observability graph.
  - `conflict.rs`: hash-conflict reports.
  - `project_agent.rs`, `runner.rs`, `planner.rs`, `executor.rs`, `chat.rs`:
    project agents, the decisions of the autonomous loop, and what a
    dashboard chat message asks for.
  - `propagation.rs`: the propagation queue and flush planning.
  - `ops.rs`, `node.rs`, `edge.rs`, `types.rs`, `ids.rs`, `error.rs`,
    `api_error.rs`, `schema.rs`, `text.rs`, `clock.rs`, `verify_scope.rs`,
    `autonomy.rs`: the supporting vocabulary, errors, API shapes, text and
    time helpers.
- `tests/`: tests against the library.
- `app/`: the HTTP server (axum) around the library. It does routing, JSON and
  the lock-expiry sweep.

Calls into outside crates (petgraph, dashmap, uuid, indexmap) stand behind
small trusted wrappers. Each wrapper's doc comment says what its contract
claims of the call.
