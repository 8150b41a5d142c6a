# rosregview

An offline viewer for Windows registry hive files (`.hiv`, `.dat`), with
its logic verified by Verus.

Subcommands: `info` (overview), `tree` (key hierarchy), `list` (children of
a key with counts), `show` (decoded values of a key) and `find` (search of
key names and value data), each with `-f human` or `-f json` output.

## Layout

- `src/` — the verified library.
  - `cli.rs` — the subcommands and output format; format names and parsing.
  - `error.rs` — `ViewError`, the library's errors and their messages.
  - `hive/` — the boundary to `nt_hive` (`nt.rs`), opening a hive from its
    bytes (`open.rs`) and descending to a key path (`format.rs`).
  - `output/` — text building blocks, control-character escaping,
    truncation, hex dumps and value decoding.
  - `view/` — one module per subcommand: its payload, the walk over the hive
    that fills it, and its human-readable rendering.  The contracts state
    the payloads over names for what `nt_hive` returns (its subkeys, values,
    names and decoded data) and the renderings character by character.

`info`'s JSON payload carries `minor_version_known`: true when the minor
version is one `nt_hive` lists in `HiveMinorVersion` (0 = NT 3.1 beta up to
6 = Vista), so an XP hive (minor version 5) is known; later minor versions,
which `nt_hive` still accepts, are not.

`nt_hive` asserts, and so panics, where a cell offset it follows holds
`0xFFFFFFFF`.  Before a subcommand runs, `run_checked` looks at every cell of
the data area that `nt_hive` would read as a subkey list, key node, value,
value list or Big Data structure (`src/hive/safety.rs`) and declines a hive
with such an offset; the program then stops as `nt_hive` would have.  The
check looks at cells no key may lead to, so it can decline a hive that
`nt_hive` would have read without harm.
