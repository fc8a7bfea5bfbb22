//! Lists the binaries that cargo installed, tells which have newer versions on crates.io,
//! and updates them with cargo-binstall.
//!
//! The library decides; the program around it does the outside work. Each subcommand is a
//! state machine ([`cli::Cli::run`]): it says what to log and which outside work to do next
//! ([`flow::Effect`]), and goes on with what came of it ([`flow::Event`]).
pub mod cli;
pub mod data;
pub mod error;
pub mod flow;
pub mod logic;
pub mod sort;
pub mod text;
pub mod utils;
pub mod version;

pub use cli::{Cli, ListOpts, Opts, RunState, UpdateOpts};
pub use data::{latest_installable_version, PackageInfo, VersionCheck};
pub use error::Error;
pub use version::Version;
