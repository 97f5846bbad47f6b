# cargo-shed

Static dependency health checks for Cargo projects, written in Verus. The
library reads a project's `Cargo.toml`, `Cargo.lock` and Rust sources, runs a
fixed set of rules (`tokio-full`, `reqwest-default-features`,
`unused-dependency`, `duplicate-versions`, `heavy-crate`), renders a scored
report or a short CI check, and makes the safe fixes on the manifest text.
Verus proves every function of the library against its contract.

## Layout

- `src/` is the verified library.
  - `text.rs`: character classes, string building, searching and ordering
    of text, with their specifications.
  - `toml.rs`: a plain model of a TOML document (`TomlTable`, `TomlItem`),
    the data a parsed document holds (`TomlData`), and the reader that
    fills the model from `toml_edit`, proved to follow that data.
  - `manifest.rs`, `lockfile.rs`: the dependencies a manifest declares and
    the packages a lockfile lists, grouped by crate.
  - `scan.rs`: which files are scanned and in what order, and what the
    Rust sources mention (crate paths, `extern crate`, tokens).
  - `rules.rs`: the rules, the registry, the report order, and the fixes.
  - `edit.rs`, `fix.rs`: the manifest edits of a fix, made with
    `toml_edit` on the parsed document so that layout and comments stay,
    and the fix run of `--fix`.
  - `report.rs`, `explain.rs`, `error.rs`: the texts a run prints.
  - `project.rs`, `cli.rs`, `lib.rs`: a loaded project, the decisions of the
    command line, and `analyze`.
- `tests/` exercises the library from outside.
- `app/` is the command: argument parsing, reading and writing files (the
  backup and the fixed manifest), JSON output and exit codes. It hands the
  library plain values and prints or writes what comes back.

## Trusted boundary

The library calls `toml_edit` (parsing, reading, format-preserving edits
and rendering) and `camino` (path operations)
through small wrappers. Their contracts, stated over named results, are
trusted and explained in their doc comments; everything else is proved.
