# shipweight

The core of a package-size service: it validates package names, decides how
size requests are answered (cache, known failures, job queue), builds the SQL
texts the store runs, and renders SVG badges. The decisions and renderings are
written in Verus and proved against their contracts.

Layout:

- `src/` — the verified library.
  - `text.rs` — characters of strings, decimal rendering, searching.
  - `binary64.rs` — an exact integer model of IEEE binary64 rounding, used for
    badge widths and for the byte and download figures.
  - `svg.rs` — number formatting, character widths, XML escaping, badge skins
    and the SVG document.
  - `badge.rs` — badge metrics, colours and the badge answered for a lookup.
  - `validate.rs` — npm name validation and spam patterns.
  - `types.rs`, `response.rs` — the data the service handles and answers.
  - `compat.rs`, `v1.rs` — request handling as state machines: each step takes
    what the outside work reported and says what to do next.
  - `store.rs` — cache keys, tables, SQL texts, row conversion, the two-level
    lookup and the request-count flush.
  - `laws.rs` — properties that span several functions.
- `app/` — the HTTP server around the library: routes, JSON, the in-memory
  caches, Postgres access and the loops that run the state machines.
- `tests/` — tests of the library on concrete values.
