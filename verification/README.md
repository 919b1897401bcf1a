# pumpkin_assets

Verified core of a Minecraft server's asset handling, written in Verus.

- `src/` — the verified library:
  - `path`: paths as text, joined as a Unix `PathBuf` joins them;
  - `asset_path`: the asset cache root and every directory and file below it;
  - `templates`: namespaced template names and pool listings;
  - `locale`, `translation`: per-locale translation tables, lookups with
    `en_us` fallback, loading of JSON language files;
  - `substitution`: placeholder matching (`%s`, `%1$s`, bare `%`) and filling;
  - `chest_loot`: conversion of vanilla chest loot tables;
  - `manager`: the asset download as a state machine (cached check, EULA,
    version lookup, SHA-1 check of the client jar, which archive entries are
    extracted and where).
- `app/` — the process-wide statics, file, network and archive work that
  drive the library.
- `tests/` — tests of the library on concrete values.

## What stands outside the library

- The structure template type and its NBT parser are not part of this
  crate. `cache::TemplateCache` therefore holds the cache's own decisions
  (a hit is returned without loading, only a successful load is stored, a
  missing file is `LoadError::NotFound`, `preload` loads each name once),
  generic over the template type; `app/template_cache.rs` drives it with a
  parse function, and no process-wide template cache is made.
- The concurrent map of the original cache is replaced by a map keyed by
  name inside `TemplateCache`; `app/` guards the one shared instance (the
  chest loot tables) with a mutex.
- Text components are represented by their rendered strings: the
  substitution functions return the filled-in text.
- The bundled `pumpkin` language files are not in this crate; `app/` reads
  them from `assets/translations` at start-up.
- Paths are held as UTF-8 text; `app/` converts the cache root with a lossy
  conversion, and the root getter hands out an owned `PathBuf`.
- Downloading, file writes, archive reading and the float rounding of loot
  table counts stay in `app/`.
