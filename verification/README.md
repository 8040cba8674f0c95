# nasdedup_core

The core of a NAS video deduplication daemon, verified with Verus: the data
model, the configuration and its validation, the file state machine, the
queue and repository rules, the pre-filter and magic-byte checks, sparse
hashing (BLAKE3), the pipeline that takes a file from `settling` to
`verified`, the event handler of the watcher, and crash recovery.

The central promise is that two files are only ever treated as copies after
their bytes were compared: the sparse hash is a filter, never evidence. The
verify step states it: a row reaches `deduped` or `verified` only through the
backend's `Same` answer (`through_backend`), and with a backend that compares
bytes (`Deduper::compares_bytes`) only when the two files' contents agree
over the row's size. Each pipeline step returns a transition; the decision
functions behind it (`sau_dedupe`, `sau_hash`, `sau_statx`, ...) state it
exactly for every answer of the filesystem and the backend. The event
handler states what it writes to the repository for each event
(`event_writes`), over the write contracts of the `Repository` trait.

Layout:

- `src/` — the verified library. `repo/memory` is an in-memory repository
  whose operations are proved against the rules of `repo/rules.rs`.
- `tests/` — scenario tests, including end-to-end runs of the pipeline and of
  the event handler on the in-memory filesystem and repository.
- `app/` — what stays outside verification: reading the TOML configuration
  (serde), the token-bucket throttle and the busy detector's float sampling,
  and system calls on real files.
