# cargo-binlist

`cargo binlist` lists the binaries that cargo installed, looks up on crates.io which have a
newer stable version, and updates those with cargo-binstall.

- `src/` is the library, verified with Verus. Each subcommand is a state machine
  (`cli::Cli::run`): given the event that answers the outside work it asked for last, it
  says what to log and what to do next. Parsing the output of `cargo install --list`,
  ordering packages by status, the tables, the messages and the update plan are all there,
  with their contracts. Versions are parsed and compared by the `semver` crate behind small
  trusted wrappers (`version.rs`).
- `app/` is the program: command line (clap), logger, processes, crates.io lookups in
  parallel, prompts, and the rendering of tables with comfy-table.
- `tests/` runs the library on concrete inputs.
