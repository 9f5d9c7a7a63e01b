# Khronos

A lightweight, durable workflow orchestration server: schedules start workflow runs, runs consist of
steps, workers poll for the activities of ready steps and report what came of them.

The library under `src/` holds the rules, verified with [Verus](https://github.com/verus-lang/verus).
Every operation on the tables has a functional specification on a mathematical `Store`, and the
executable function is proved to give exactly that store and that reply.

| Module | What it holds |
|--------|---------------|
| `activity`, `schedule`, `workflow` | The domain types, their words and retry backoff |
| `clock`, `seconds`, `ids`, `json`, `text` | Values: times, lengths of time, UUIDs, JSON, text |
| `db` | The tables and what they keep: keys, references, order |
| `definitions` | Which activities a workflow name stands for |
| `retry`, `engine` | Failed attempts, the outlook of a run, events and timers |
| `cron_times`, `queue`, `scheduler` | When a schedule fires, and what it starts |
| `service` | Schedules, workflows, workers and the Temporal-compatible requests |
| `task_queue`, `worker` | Registered workers; handlers, reports and the poller's state |
| `laws` | What holds across operations: consistency, handing out, retries, overlap, heartbeats |

An operation that reads the clock or draws identifiers comes in two forms: `create_schedule_at`,
for one, takes the moment as an argument and is specified exactly; `create_schedule` reads the
clock and is specified for whatever it shows.

What comes from other crates stands behind small functions marked `external_body`, each with a
contract and a note on what it claims: `chrono` for the calendar, `cron` for occurrences, `uuid`,
`serde_json`, and a few functions of `std`.

`app/` is the program: the command line, SQLite, the gRPC server and client, the engine and
scheduler loops, and the worker's processes. It hands plain values to the library and does what the
library asks for. Messages travel as JSON in a `google.protobuf.Any`.

## Running

```
khronos [--port 50051] [--data-dir ./data] [--log-level info]
khronos worker [--server 127.0.0.1:50053] [--queue default] [--max-concurrent 4]
```
