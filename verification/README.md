# triplewrapper_core

The core of TripleWrapper, an archive manager that decides where an archive
can be rewritten or extracted safely, plans the `7z`/`tar`/`pixz`/plugin
command lines, reads their output back, and keeps a priority queue of
operations. The library is written in Verus: every function in `src/` carries
a contract that Verus proves.

Layout:

- `src/` — the verified library.
  - `engine.rs`: storage verdicts (internal, external workspace, critical)
    and the extraction preflight.
  - `archive.rs`: command plans, password redaction, listing and progress
    parsers, resume bookkeeping.
  - `queue.rs`: the operation queue and its invariants.
  - `checksum.rs`, `integrity.rs`: streaming BLAKE3/SHA-256/XXH3 digests and
    the integrity log.
  - `disk.rs`, `mount.rs`, `watch.rs`: mount-table filters, the unmounted
    device listing, udisks2 commands and signals.
  - `plugin.rs`, `compression.rs`, `config.rs`, `progress.rs`, `utils.rs`,
    `cli.rs`: plugins, format detection, settings, telemetry, formatting and
    the command-line decisions.
  - `laws.rs`: properties that span several functions, stated and proved.
  - `text.rs`, `paths.rs`, `types.rs`, `error.rs`: strings, paths, shared
    types.
- `tests/` — tests of the library on concrete values.
- `app/` — the command-line program and D-Bus service around the library:
  I/O, processes, async plumbing and serde/clap/zbus types.
