# anolisa

The decision logic of the `anolisa` command line tool, verified with Verus.

The tool installs components and keeps a record of what it installed, enables and
disables the adapters that plug components into agent frameworks, and manages the
sandbox substrate of a host. It also draws episodes out of an agent's audit log.

- `src/` is the library. Every function says in its contract what it returns, and
  Verus proves it. A command that works on the world is a chain of stages: each
  stage takes what was found or done outside and says what to do next, so that no
  decision is made anywhere else. What holds across functions stands in the proof
  functions whose names begin with `law_`.
- `tests/` runs the library on concrete values.
- `app/` is ordinary Rust around the library: arguments, files, processes and the
  wire forms of records. It carries out the stages.

The library calls `chrono`, `ulid` and `sha2`. What is believed of those calls is
written at `src/clock.rs` and `src/adapter/digest.rs`; what is believed of
`String::push` is written at `src/text.rs`.
