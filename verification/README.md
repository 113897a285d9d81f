# devin_sessions

Reads the session store that the Devin command line keeps, a SQLite database, and
turns its rows into sessions: messages, token usage, and tool events, with the
sessions of subagents linked to the session that spawned them. The library is
verified with Verus: every function states what it returns, and Verus proves it.

- `src/` is the verified library. It takes the rows of the store as plain values.
  - `text`, `paths`, `types`, `store`: texts, the paths of the machine, the records
    that a scan produces, the rows of the store.
  - `json`, `message`: JSON as `serde_json` reads it, and the chat messages in it.
  - `events`, `parse`: tool calls as events, and message nodes as a transcript.
  - `chain`, `session`: the chains of subagents, and the sessions that they make.
  - `sync`, `scan`, `adapter`: what a scan reads again, the scan of a whole store,
    and the command line itself.
  - `transcript_laws`, `session_laws`, `scan_laws`: what holds of every transcript,
    session and scan.
- `app/` opens the database and hands its rows to the library.
- `tests/` runs the library on concrete stores.

The analysis of shell commands is a parameter of a scan: a function from a command
and its directory to the files that it touches. What is proved holds of any such
function.

What is trusted, and not proved, is what `src/json.rs` says of `serde_json` and what
`src/paths.rs` says of `std::path`.
