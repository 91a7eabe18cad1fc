# ralphx

The decision core of the RalphX application layer, written in Verus. The
functions in `src/` carry `requires`/`ensures` contracts that Verus proves,
except the few `#[verifier::external_body]` wrappers around `serde_json`,
`uuid`, `chrono`, `std::path::Path::{parent, file_name}` and `String::push`, whose contracts are
trusted and state only what those libraries document.

- `src/interactive_process_registry.rs` — live interactive CLI processes keyed
  by context: tokens, turns, retirement, pending stdin turns.
- `src/integration_reference_expansion.rs`, `src/linear_integration.rs` —
  expanding user-selected integration references into a prompt within a byte
  budget; Linear settings, label resolution and issue rendering.
- `src/mcp_policy.rs` — layered MCP server/tool policy resolution, the
  snapshot built from a parsed policy file, and the launch policy handed to
  provider CLIs.
- `src/path_safety.rs` — absolute, non-root path checks, path components and
  the rule that places a policy file under its owned root.
- `src/memory.rs` — memory pipeline selection, memory agent launch
  environments and skill-distillation scheduling reports.
- `src/notifications.rs` — interactive notification copy and dedupe keys.
- `src/provider_cli.rs` — provider CLI launch paths and runtime probe reports.
- `src/team_*.rs` — managed Teams: overlay validation, prompts, sessions and
  run bindings, messaging authority, assignments, budgets, wakes and the
  startup barrier; `src/team_flows.rs` gives, for assignment planning,
  settlement, orphan recovery, exit, drain, suspension and message sending,
  the rows each flow writes (reservation releases included) from the rows
  it read, and holds the idempotent message store.
- `src/text.rs`, `src/env.rs`, `src/json.rs`, `src/agents.rs` — shared string,
  environment-list and JSON helpers, and the agent vocabulary.

Public proof functions named `law_*` state properties that span calls.

`app/` holds the unverified shell: async process plumbing, file and YAML
reading, serde wire types, the MCP policy and memory capture services over
their stores, and the loops that drive the wake dispatch, automatic skill
distillation and Linear reference expansion.
