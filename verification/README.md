# delegation

Sub-agent delegation for an agent runtime, verified with Verus.

A parent agent hands goals to child agents. This crate decides which tools a
child may use, builds the child's system prompt, tracks each child's
lifecycle, keeps a team's task queue, batches progress notifications, and
carries out the `delegate_task` tool: a single goal or a batch of at most
`max_concurrent` tasks.

Layout:

- `src/` — the verified library.
  - `delegation/mod.rs`: blocked tools and tool filtering.
  - `delegation/subagent.rs`: child configuration, lifecycle, system prompt.
  - `delegation/task.rs`: tasks, per-task results, the team queue and its summary.
  - `delegation/progress.rs`: progress events, the event log, tool batching.
  - `tools/advanced/delegation.rs`: the delegate-task tool's decisions.
  - `text.rs`, `clock.rs`, `ids.rs`: string helpers, the clocks (chrono, std)
    and random identifiers (uuid).
- `app/` — the asynchronous, serialisable face: `tokio` locks around the
  library's state, serde records (seconds and datetimes on the wire), and the
  JSON tool interface.
- `tests/` — scenarios run against the compiled library.

Durations are whole milliseconds and timestamps are milliseconds since the
Unix epoch inside the library; `app/` converts them to seconds and `chrono`
datetimes.
