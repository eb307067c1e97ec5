# psysonic

The verified core of the Psysonic music library, written in Verus.

- `src/` — the library. Every function carries a `requires`/`ensures`
  contract that Verus proves; the `law_*` proof functions state properties
  that span several functions (operator wire round trip, distinct filter
  ids, canonical ids that never collide, placeholders and bound values in
  lockstep, tailing after one or many appends, tombstone counts, mood-group coverage).
- `app/` — the runtime shell around it: process-wide logging state and the
  log file, serde forms of the library's types, SQLite access, floating-point
  mood scoring, and the loops that carry out the library's decisions
  (advanced search, cover backfill, tombstone reconciliation, enrichment,
  analysis dispatch).
- `tests/` — scenario and edge-case tests of the library.
