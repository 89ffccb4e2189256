# zenutils

Workspace utilities for the zen crates, with their logic verified by Verus.

- **Public-API snapshots.** A run regenerates (or checks) three disjoint
  files per publishable library crate: the supported surface, the additions
  from non-default features, and the `doc(hidden)` plus excluded-feature
  surface. The library decides everything between the builds: the mode, the
  crate list, each crate's features, the `cargo rustdoc` arguments, the
  encoding of the API lines (prefix stripping, one trait roster line per
  type, auto-trait exceptions, re-export annotations, a summary taxonomy) and
  the exact text of each file.
- **Fuzz-regression replays.** A suite must declare what it expects of its
  seed corpus; the library decides which directory entries are seeds, which
  scan outcomes fail the suite and with what message, and reports the replay.

Layout:

- `src/` — the verified library: code with contracts and proofs.
- `app/` — the process, file-system and toolchain plumbing: environment
  variables, `cargo metadata`/`package`/`rustdoc`, the `public-api` listing,
  `rustup` toolchain installs, reading and writing snapshot files, walking a
  corpus and running targets under `catch_unwind`.
- `tests/` — tests of the library.
