# paddock_core

The logic of the paddock desktop app, verified with Verus: what paddock's exit
codes mean, where the `paddock` binary is, the `PATH` handed to it, the typed
rows of its JSON, and the messages shown when a run fails.

- `src/exit.rs` — exit codes, their meanings and remedies, and the laws that
  relate them.
- `src/resolve.rs` — the resolution ladder (override, `~/.local/bin`,
  Homebrew, `/usr/local/bin`, login shell) over an injected `Probe`.
- `src/proc.rs` — the child's `PATH`, and the types of a run's output.
- `src/contract.rs` — the rows of `paddock ls --json` and `paddock info --json`.
- `src/report.rs` — failure messages and the lifecycle verbs the UI may run.
- `src/paths.rs`, `src/text.rs` — the `std::path` and `str` operations the
  rest relies on, with what is assumed of each.
- `app/` — the Tauri shell: running the CLI, the filesystem and login-shell
  probe, and reading JSON with serde.
