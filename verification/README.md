# cobalt

Usage tracking for a desktop: which apps are used, for how long, in which
sessions, with focus streaks, usage alerts and tags. This crate is the
verified core of that logic, written in Verus.

## Layout

- `src/` — the library, verified by Verus.
  - `entities`, `infused`, `table`: the entities of the usage database and
    the encodings of their columns.
  - `periods`: focused and distractive periods (streaks) of a time range.
  - `usages`: sessions, durations and usage shifts built from query rows.
  - `alerts`: the writes and results of creating, updating and listing alerts.
  - `tags`: the writes and results of creating tags and moving apps between them.
  - `id_list`: identifier lists stored as comma-separated text.
  - `repo_sql`: SQL expressions for periods and tick conversions.
  - `time_system`: clocks in Windows ticks.
  - `platform`: buffers, error codes, process rights, and the foreground and
    interaction watchers.
  - `engine`: the tracking engine's records, migrations and event processing.
- `tests/` — tests of the library.
- `app/` — the database side: schema, migrations and queries (with `sqlx`),
  and serializable copies of the library's types (with `serde`).
