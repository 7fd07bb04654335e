# radium_cli

The decisions of the `rad` command-line tool of Radium, written in Verus and
proved against their contracts: how command-line options are read, how
templates and prompts are filled, how plans are named and outlined from a
specification, how code-block selections are parsed and blocks joined, how
policy rules are checked and policy files read and edited, how a new
agent's details and file places are settled, what the event stream of an
orchestration session shows, how telemetry is summarised, and the retry
schedule of a daemon connection.

Layout:

- `src/` — the verified library, one module per command area. `text.rs`
  holds the character-level helpers the others share (trimming, lines,
  splitting, decimal numbers) and the few trusted calls into the standard
  library; `privacy.rs` and `analytics.rs` call the `regex` and `chrono`
  crates, and `policy.rs` the `toml` crate, behind trusted wrappers whose
  contracts say what is assumed.
- `tests/` — tests of the library on concrete values.
- `app/` — the `rad` program around the library for the commands that work
  on the workspace's own files (`policy`, `privacy`, `doctor`), plus the
  input/output halves of the session file, the daemon connection loop and
  the event-stream renderer.
