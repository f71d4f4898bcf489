# worldflow_core

The storage core of a world-building notebook: projects, categories, entries
with tags and images, typed relations and links between entries, custom entry
types, tag schemas, idea notes, CSV export and import of a whole store, and
git snapshots of those CSV files.

## Layout

- `src/` is the library, written in Verus and verified. It holds the models,
  the text rules (title normalisation, LIKE and FTS5 escaping), the CSV
  tables and their codecs, the export and import pipeline, the planning of
  entry saves (link targets, relation patches, cover images), the SQL text
  the queries use, the limits and pagination checks, the repair of migration
  checksums and the snapshot decisions. Calls into `uuid`, `sha2`,
  `serde_json` and `csv` stand behind small trusted wrappers whose contracts
  say what those crates do.
- `app/` is ordinary Rust around the library: the SQLite and PostgreSQL
  stores (`sqlx`, `tokio`), git (`git2`), memory probing (`sysinfo`), the
  serde copies of the record types and the error type with `thiserror`.
  It runs the queries and hands their results to the library, which decides.
- `tests/` runs the library on concrete values.
