# magic_context

The durable state behind a context cache for coding agents, and the rules that a pass over a
conversation follows, verified with Verus.

- `src/store/` holds the tables of a store and every operation on them: cache state,
  compartments, memories and what happened to them, workspaces, agent drops, tags, notes,
  transcripts, imports and shadow sessions. A store is a value; each operation states exactly
  what becomes of it, and that its constraints hold afterwards.
- `src/transform/` is the pass that replaces the covered part of a conversation by two frozen
  blocks. It runs as a machine: it tells which answer it waits for, takes the answer, and goes
  on. What holds of every answer is stated in `laws.rs` and of a whole run in `runs.rs`.
  `driving.rs` has the deciders and composers as functions and says what holds of a whole
  call, and `calls.rs` what holds of a call that is repeated.
- `src/sessions/` reads the transcripts of other harnesses, and `src/config.rs` reads and
  replaces configuration files, both from values that were seen on disk.
- `src/text.rs`, `rows.rs`, `like.rs`, `digest.rs`, `json.rs`, `keys.rs` and `paths.rs` are
  what these share.
- `app/` is ordinary Rust around the library: the tables in SQLite, JSON, files, and the loop
  that asks a pass's deciders and composers for their answers.
