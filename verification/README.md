# foldback_lib

The verified core of `foldback`, a command wrapper that runs a command once,
stashes its complete stdout and stderr, shows a condensed view on the
terminal, and recovers the stored bytes later through a short ref.

- `src/` — the library, verified with Verus: argument normalisation
  (`argv`), generic head/tail condensing (`condenser`), the display pipeline
  and the pytest / cargo-test summaries (`display`), the stash rules — refs,
  digests, expiry, slicing, tailing, grepping (`stash`), the management
  command lines and their output (`commands`, `cli`), and exit codes
  (`error`, `runner`).
- `tests/` — tests of the library.
- `app/` — the `foldback` program: process spawning, SQLite and blob files,
  environment and terminal I/O around the library.
