# sdag

A scheduler for pipelines of tasks (a DAG of tasks, branches and one-of
choices) that runs them on Slurm or as local processes, with caching of task
results, retries, breakpoints and checkpoints. The scheduling logic is a
library written in Verus: each function carries a `requires`/`ensures`
contract, and Verus proves the code against it.

## Layout

- `src/` — the verified library.
  - `nodes.rs`, `schemas.rs`, `status.rs`, `settings.rs`: the data model.
  - `dag_setup.rs`, `context.rs`, `state.rs`: building a run from its DAG.
  - `polling.rs`, `submission.rs`, `visitors.rs`, `kill.rs`, `breakpoint.rs`:
    one round of the scheduler (poll the jobs, propagate statuses, submit
    what is ready, stop on request).
  - `cache.rs`, `workdirs.rs`, `blocking.rs`, `nonblocking.rs`,
    `run_task.rs`: caches, run folders, and the commands that run a task.
  - `summary.rs`, `describe.rs`, `commands.rs`: reports and entry points.
  - `sscheduler/`: the standalone scheduler that works on a node map
    (parser of its command line, status propagation, limiter of cacheable
    tasks, submission).
  - `viz.rs`: the terminal picture of a pipeline, drawn by `graphs_tui`.
  - Trusted items (contracts Verus takes without proof, each a single call
    into an outside crate or std): the `regex` interface in `pattern.rs`,
    `render_mermaid` in `viz.rs` (`graphs_tui`), `same_json_text` in
    `cache.rs` (`serde_json`), `new_uuid_string` in `run_task.rs` (`uuid`),
    and `to_uppercase` in `nonblocking.rs` (std).
  - `laws.rs`: properties that span several functions, proved once for all
    inputs.
- `tests/` — tests that run the library on concrete values.
- `app/` — the unverified shell: Python bindings, the scheduling loop with
  its sleeps and signals, file and process I/O, and the serde forms of the
  library's types.

## Checking

Verus verifies `src/`; the tests run with the outside crates linked.
