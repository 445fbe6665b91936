# flowbit

A viewer for GitHub Project v2 boards. The program loads `config.toml`,
fetches the project through the GraphQL API (or shows the cached copy when
that fails), applies the configured default filter and prints the items.

## Layout

- `src/` — the verified library (Verus):
  - `model/` — project items, status columns and the filter language
    (`Filter::parse`, `Filter::matches`, `Filter::display_summary`, the
    default filter from the configuration);
  - `api/` — query texts, response shapes, decoding of items and status
    columns, the metadata fallback from user to organization, the pager that
    gathers pages of items, and the stable newest-first ordering;
  - `config.rs`, `logging.rs`, `cache.rs`, `paths.rs` — settings, token
    priority, and the locations of the configuration, log and cache files;
  - `startup.rs` — the default filter on start, choosing a project and
    recording the choice in the configuration text;
  - `text.rs` — character-level helpers (words, trimming, joining, decimal
    numbers) with their specifications.
- `app/` — the program around it: HTTP requests, JSON and TOML
  (de)serialization, files, environment, terminal input and logging.
- `tests/` — tests of the library on concrete values.
