# memory_engine

The decisions of a long-term memory for agents: what may be stored, how facts
expire and are consolidated, how the in-memory graph and scope tree follow the
store, what a query or an import reports. All of it is proved.

- `src/` is the library. Every function states what it returns; the laws that
  relate several functions are public proof functions beside them. Where a law
  speaks of the store, it does so over the rows that the store is to hold.
- `app/` is the asynchronous engine that hosts call. It talks to the storage
  backend, the embedding model and the file system, and asks the library what to
  do next.
- `tests/` runs the library on concrete values.

## Conventions

- Floating-point numbers are held as their bit patterns: `Binary64` for doubles,
  `Vec<u32>` for the components of an embedding.
- Instants are `Timestamp`s: seconds and nanoseconds since the Unix epoch, in
  UTC.
- Paths are texts.
- Work that waits for the outside world is done in steps. A step says what is
  needed next (`FactInsertion`, `ScopeChainWalk`, `SessionStep`, `SnapshotStep`,
  `PlanRun`, `QueryStep`, `DueStep`, `GuardStep`, `FlushStep`) and is handed the answer.

## Modules

| module | about |
|---|---|
| `limits` | sizes of payloads |
| `text`, `time`, `binary64`, `json`, `paths` | the plain values |
| `types` | facts, events, scopes, searches, consolidation, archives |
| `graph`, `scope_tree` | the projections of the store |
| `engine` | opening, adding, querying, linking, promoting, archiving |
| `consolidation` | snapshot, plan, apply |
| `bootstrap` | outcomes of sessions, import of logs and memory files |
| `test_util` | plain facts and events for tests |

What is believed about outside crates (`blake3`, `chrono`, `serde_json`) and about
the standard library is written above each function marked `external_body` and
each `assume_specification`, in `text`, `time`, `json`, `paths` and `test_util`.
