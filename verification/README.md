# tf2-queue-query

A Windows command-line tool that asks TF2's Game Coordinator, through the
desktop Steam session, for one snapshot of the matchmaking map selections and
prints it as JSON (or writes it as CSV files).

The logic is a library verified with Verus; the program around it is ordinary
Rust.

## Layout

- `src/` — the verified library
  - `protobuf.rs`: varints, the GC packet header, the `map_count` decoder
  - `catalog.rs`: the `master_maps_list` block of `items_game.txt`
  - `export.rs`: display names, game modes, percentages, the snapshot
  - `snapshot_laws.rs`: what every snapshot satisfies (order, totals,
    busiest map, percentage range, one row per mode)
  - `tables.rs`: the CSV records and file names of a snapshot
  - `steam_gc.rs`: the decisions of the GC exchange, `steam.inf`, result codes
  - `discovery.rs`: `libraryfolders.vdf` and the Steam library roots
  - `cli.rs`: the options of a run and their checks
  - `text.rs`: character-level helpers shared by the others
- `tests/` — tests of the library
- `app/` — the program: option parsing, registry and file access, the Steam
  API, JSON and CSV writing
