# ironflow

IronFlow is a data pipeline orchestrator: DAGs of tasks are read from TOML
files, validated, scheduled by cron expressions or triggered by hand, and
run with dependencies respected, retries, timeouts and passing of results
(XCom) between tasks.  Runs are recorded in SQLite and served over HTTP.

## Layout

- `src/` — the verified library (Verus).
  - `dag/` — DAG definitions, dependency queries and execution order
    (`definition`), validation including cron schedules (`validator`), and
    the collection of loaded DAGs (`watcher`).
  - `executor/` — the state of a run and which tasks may start
    (`run_state`), the retry and timeout decisions of an attempt
    (`attempt`), and the injection of upstream results into a task's
    configuration (`xcom`).
  - `operators/` — what each operator reads from its configuration and how
    it judges the outcome of the work it does.
  - `store` — how stored rows read back as runs and how a task run's row is
    updated; `api` — the answers of the HTTP API; `cli` — the commands;
    `scheduler`, `ui`, `json`, `text`, `timestamp` — the rest.
- `app/` — the program around the library: command line, SQLite access,
  processes and HTTP requests, the cron scheduler, file watching, the HTTP
  server and serialization.
- `tests/` — tests of the library.
