# fs_sav

Foxhole save file parser: extracts stockpile data (items, locations, types,
garrison tech) from `.sav` files, written in Verus.

## Layout

- `src/` — the verified library.
  - `save.rs`: the boundary to `uesave` (walking the property tree of a
    save it has read), with the trusted wrappers and the names of what they give.
  - `parser.rs`: property lookups, Unreal Engine timestamps, stockpile items
    (sorted by quantity), tooltips, whole saves (`extract_stockpiles`,
    `parse_save_result`).
  - `models.rs`: the stockpile model, its change-tracking key, and garrison
    tech decoding (`parse_tech`).
  - `filter.rs`: stockpile filters and `--faction` parsing.
  - `python.rs`: the filters of the Python bindings (type matched on its
    JSON text), and when they agree with the command line's.
  - `watch.rs`: which stockpiles a watcher reports when the save changes.
  - `text.rs`: string helpers (equality, ASCII case, `::` splitting,
    trimming a character).
  - `error.rs`: the error type.
- `tests/` — tests, including saves written with `uesave` and read back.
- `app/` — the `fs-sav` command line: argument parsing, file access, the
  `uesave` read of the bytes, JSON output (serde copies of the models), the
  file watcher.
