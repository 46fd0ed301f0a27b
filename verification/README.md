# subsurface-engine

Subsurface explains why code exists: for a selection of lines it walks the
git history, ranks the Evidence it finds, assigns a rule-based Confidence,
asks an inference provider for a rationale only when the Evidence supports
one, and flags workarounds whose reason has demonstrably gone away. Around
that it grades Project quality, tracks improvement Opportunities, prepares
and measures candidate changes in disposable clones, and publishes approved
changes as GitHub Work Items.

## Layout

- `src/` is the library, written in Verus. Its functions carry a
  `requires`/`ensures` contract over mathematical models (`Seq`, `Set`,
  `Map`, views of the data types) and are proved by Verus. Public proof
  functions named `law_*` state properties that span functions or hold of
  every state: for example that ranking Evidence is a sorted permutation,
  that a failed candidate stays queued, that the auto-publisher re-checks
  every guard before it writes, and that stale code is only ever flagged on
  a commit that closes a referenced issue.
- Calls into other crates (`reqwest`'s URL parser, `serde_json`, `sha2`,
  `base64`, `uuid`, `chrono`, `dirs`) sit behind small trusted wrappers whose
  doc comments say what their contracts assume.
- `app/` is the command-line program around the library: it runs `git`,
  reads and writes files, keeps the SQLite store, makes HTTP requests and
  spawns isolated commands, handing the library plain values and acting on
  its decisions.
- `tests/` exercises the library on concrete values.
