# dbelte core

The SQL core of dbelte, a desktop manager for PostgreSQL, MySQL, SQL Server
and SQLite, written in Verus: every function in `src/` carries a contract that
Verus proves.

- `src/db.rs` — the dialects (placeholders, quoting, casts, pagination), the
  table and column descriptions, and the builders that turn the data grid's
  filters, sort and page into a statement plus bound values.
- `src/commands.rs` — row edits by primary key, `ALTER TABLE … ADD`, the
  pager's count, cancel statements, ids and export formats.
- `src/introspect.rs` — reading catalog rows into tables, columns and
  single-column foreign keys, and choosing how each engine's column types
  are decoded.
- `src/meta.rs`, `src/mssql.rs` — saved records and the history rule; T-SQL
  statement classification and named instances.
- `src/text.rs`, `src/numparse.rs`, `src/json.rs`, `src/valuemap.rs` — the
  character, number and value work the above is built from.
- `src/laws.rs` — properties over all inputs: quoted names read back as
  themselves, user values never reach the statement text, escaped LIKE
  patterns match literally, count and page agree with the row query, edits
  need the whole key.

`app/` is the desktop side around it: the sqlx and tiberius drivers, the
metadata store, the keyring, exports and the command handlers.
