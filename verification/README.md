# montrs

The decision logic of the MontRS tooling as a verified library, with a
command-line program around it.

- `src/` is the library. Every function in it is verified by Verus
  against its contract: benchmark configuration and scheduling, the cost
  model, task ordering, the agent's error records, tool lists and project
  snapshots, the Model Context Protocol dispatch, the commands the CLI
  runs, test reports, scaffolding, sketches and schema checks. The few
  calls into other crates (regular expressions, TOML, JSON, UUIDs) go
  through small trusted wrappers whose contracts are stated next to them.
- `tests/` runs the library on concrete inputs.
- `app/` is the `montrs` program: argument parsing, files, processes,
  the async benchmark runner, statistics, database backends and signals.
