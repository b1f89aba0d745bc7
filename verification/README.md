# proxy_runtime

The runtime of a proxy application around one core process: starting, stopping and restarting the
core, switching it to a changed configuration with or without a restart, watching it, bringing it
back after a crash, and keeping what surrounds it (rule files, name resolution, selectors, the
network) in step.

- `src/` holds the decisions: state machines, parsers, rules and messages, each with its contract,
  proved by Verus. Laws that relate several functions are public proof functions whose names begin
  with `law_`.
- `app/` holds what performs them: tasks, processes, sockets, files, and the traits through which
  the rest of the application is reached.
- `tests/` runs the library on concrete values.

Outside calls of the library stand in `src/json.rs` (`serde_json`) and `src/text.rs` (two functions
of the standard library); their contracts are believed, not proved.
