# seesea

The core of the SeeSea search service, written in Verus. The library's logic is
proved against its contracts; its calls into `sled`, `reqwest`, `uuid`, `sha2`
and the standard library go through small trusted wrappers, each with a doc
comment saying what its contract claims of the outside code. Some functions, such
as the forwarding methods of a call record, state less than all they do: what a
user's operation reports is stated only as one of its possible outcomes.

- `src/cache` — the persistent cache on `sled`: scoped keys, entry metadata with
  lifetimes, statistics, hot keys, batch and scope operations, cleanup of expired
  entries, and the laws that tie them together (what a write gives back to a
  read, what a delete or a clear hides, what a cleanup keeps).
- `src/derive` — the engine layer: errors, the in-memory result cache, the
  token-bucket rate limiter, HTTP client settings, query validation and retries.
- `src/config` — the configuration tree with its defaults, validation and
  loading from already-read sources.
- `src/transaction` — transactions of undoable calls and their manager.
- `src/api` — the decisions behind the HTTP endpoints: JSON documents as the
  library's own values, stock routing, cache keys and the search of the cached
  stock list, RSS item selection and templates, the index page and icon, cache answers.
- `src/tf`, `src/cli` — content hashing and embedder errors; the pure parts of
  the command-line client.
- `app/` — the server around the library: axum handlers, file and network access,
  and the parts that compute with floating-point numbers.
- `tests/` — tests of the library on concrete values.
