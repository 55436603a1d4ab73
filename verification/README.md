# ironclaw agent core

The decision logic of a personal AI agent's runtime, written in Verus and
proved against its contracts: how a chat turn runs its tool calls (hooks,
approval, batching, auth barriers, what is folded back into the context),
how history is compacted when the context window overflows, when routines
fire and how their replies are judged, the heartbeat that checks a
checklist periodically, self-repair of stuck jobs and broken tools, and
the scheduler's admission rules.

Layout:

- `src/` — the verified library.
  - `text.rs`, `json.rs`, `llm.rs` — strings as character sequences, a JSON
    model, chat messages and tool calls.
  - `dispatcher/` — previews, reply sanitising (and the shape of a
    stripped reply), compaction (with its laws), the tool pipeline's
    grouping and post-flight fold as step machines, the skill context
    block with its escaping, the agentic loop's thresholds and the model
    call's retry.
  - `routine/` — routine actions and triggers with their stored form (and
    the round-trip laws), cron schedules, and the routine engine's
    guardrails and reply handling.
  - `heartbeat.rs`, `self_repair.rs`, `scheduler.rs`, `timezone.rs`.
- `tests/` — tests of the library.
- `app/` — the serde forms of actions and triggers, and the loops that
  drive the library's step functions against the services they need:
  a chat turn's tool calls and model call, the heartbeat, self-repair,
  routine firing (cron, message events, system events, manual runs), job
  dispatch and stopping a job. It has no driver for stopping all jobs at
  shutdown, spawning sub-tasks and batches, refreshing the event cache,
  running a routine's full job, or running a scheduler tool task; the
  decisions those make are in the library (`shutdown_plan`,
  `route_subtask`, `batch_slot_result`, `plan_full_job`,
  `gate_tool_task`).

Outside crates: `serde_json` (parsing tool output and hook replies),
`chrono-tz` (time-zone names), `cron` (schedules), `regex` (event
patterns) and `chrono` (the clock and hours in a zone) are called from the
library behind trusted wrappers; `serde` is used by `app/` and the tests.
