# mago

Parts of a static analyser for PHP, written in Rust and verified with Verus.

- `src/` is the verified library. `src/lib.rs` says what each module is for.
- `tests/` runs the library on concrete values.
- `app/` is ordinary Rust around the library: it watches the file system, reads files, and drives
  the population of a codebase.

What the library takes from other crates is declared in two places: sets of glob patterns
(`globset`) in `src/globs.rs`, and sets of symbols (`foldhash`) in `src/codebase.rs`. The sorting of
names (`itertools`) is in `src/initialization.rs`. Each of these items says in its comment what is
believed of the crate.
