# casr

Carries sessions of coding agents from one agent to another. A session is read
from the form in which one agent keeps it into a canonical form, and written in
the form of another. Two agents are covered:

- **Hermes** keeps all sessions of a profile in one SQLite database, `state.db`.
  One session of a database goes by a virtual path, `<state.db>/<session id>`.
- **Qoder** keeps one transcript for each session, a file with a JSON record on
  each line.

## Layout

| where | what |
|---|---|
| `src/model.rs` | the canonical form, and what the agents share in bringing sessions into it |
| `src/json.rs` | JSON values, and the way to and from JSON text |
| `src/text.rs` | operations on text |
| `src/place.rs` | where files are, as a base and the names joined to it |
| `src/fresh.rs` | new identifiers and the time |
| `src/hermes/` | the Hermes database: where it is, what is stored in it, what is read from it |
| `src/qoder/` | the Qoder transcripts: where they are, what is written to them, what is read from them |
| `app/` | files, directories, the environment and the database |
| `tests/` | the library from outside |

Everything in `src/` is verified with Verus against the contracts that it
states. What is believed without proof are the contracts of a few functions of
`serde_json`, `sha2`, `uuid`, `chrono` and the standard library; each says in its
doc comment what it claims.

`app/` looks at the machine, hands the library what was found, and carries out
what it decides. It also converts between the milliseconds of the canonical form
and the floating-point seconds of the Hermes database.

## Known limits

- The folder of a Qoder project is named after its workspace with a hash behind
  it. An existing folder is used again. The hash of a new one is a stand-in, and
  Qoder may not discover sessions in such a folder by itself.
- A transcript keeps neither times nor tools. What a tool, the system or anyone
  else said is written as said by the assistant, with a prefix that says whose it
  was, or dropped if it is blank.
- The commands that resume a session are suggestions.
