# echo_library

The verified core of Echo, a local audio library: what it decides about
models, cached artifacts and catalog rows is written in Verus and proved
against its contracts.

- `src/ai.rs` — capability routing and the model registry (which snapshot
  of a HuggingFace cache a model resolves to, or the download command).
- `src/content_hash.rs`, `src/cache.rs` — BLAKE3 content identity, its
  hexadecimal text, and the content-addressed blob layout and checks.
- `src/bridge.rs` — the requests handed to the native audio engine.
- `src/catalog/` — the catalog's rules: job queue order and claims,
  analysis stages and recovery, listening continuity, facets, impulse
  response evidence, the ladder of schema revisions a catalog migrates
  through, and the decoding of stored rows
  (with proofs that rows written from a value read back as that value).
  The tables whose updates carry the catalog's promises are also modelled
  as values with verified transitions: the jobs table (claims, completion,
  failure, crash recovery), the asset table (registration, lookup,
  missing and relinked paths, newest-first listing), inference runs,
  derived-artifact references (replace, read back, remove), the
  append-only analysis log, and long-audio segment plans and outlines; the Audio Space projection, with its newest-adjustment and
  newest-keywords selections, is proved against the rows it reads.
- `src/json.rs`, `src/text.rs` — text helpers and the JSON facts the
  library relies on.
- `app/` — the command-line program: argument handling, the file-system
  edges of the blob cache and model registry, and the few SQLite queries
  its commands run.
- `tests/` — executable tests of the library.
