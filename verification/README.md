# sprocket_metrics

Execution metrics of workflow runs: how they are collected from events, how they
are recorded, and how they are reported.

## Layout

- `src/status.rs`, `src/time.rs`, `src/uuid.rs`, `src/json.rs`, `src/text.rs`,
  `src/double.rs`: the values that everything else is made of.
- `src/events.rs`: the events of the engine and of the execution backends.
- `src/metrics.rs`: the metrics of a run, built from its tasks.
- `src/collector.rs`: collection of the metrics of a local run from its events.
- `src/db.rs`: the record of runs and tasks, as a trait, and the batches of writes
  that are applied to it; `src/memory.rs` keeps such a record in memory.
- `src/retry.rs`: retries of database operations that hit lock contention.
- `src/task_monitor.rs`: what the events of a run mean for its record;
  `src/watchlist.rs` knows which of its tasks have yet to finish.
- `src/report.rs`, `src/paint.rs`: the report on a run, in text and in colour.
- `src/*_laws.rs`: what holds of these as a whole. A status only ever advances, no
  task is left unfinished once its monitor has ended, no buffered write is lost,
  and every attempt is reported exactly once.
- `app/`: the edges, with channels, HTTP, the command line and serialization.

The functions in `src/` are verified with Verus against the contracts that stand
with them. The contracts of calls into other crates are stated in functions
marked `external_body`, each of which says in its comment what it takes for
granted.
