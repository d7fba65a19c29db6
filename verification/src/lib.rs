//! Package-manager style frontends for Cargo-installed binaries.
//!
//! All of the logic — argument parsing, registry handling, and update
//! detection — lives in this library, with its behaviour stated in contracts
//! over sequences, maps and spec functions. Programs around it read files,
//! talk to registries, run `cargo` and print; what they read goes in as plain
//! values, and what is to be done comes back as plain values.
//!
//! # Frontends
//!
//! | Subcommand | Style |
//! |---|---|
//! | `cargo pm` / `cargo pkgman` | Native commands (`install`, `upgrade`, …) |
//! | `cargo pacman` | Arch Linux `pacman` clustered flags (`-Syu`) |
//! | `cargo apt` | Debian/Ubuntu `apt` |
//! | `cargo dnf` | Fedora `dnf` |
//!
//! # Upgrades
//!
//! Update checks ask each crate's sparse index (no git client). Alternate
//! registries and Cargo source replacement are honoured. An upgrade replays
//! the original `cargo install` flags recorded in `.crates2.json` (features,
//! bins, profile, target).

pub mod arguments;
pub mod cargo;
pub mod cli;
pub mod config;
pub mod dialect;
pub mod error;
pub mod fetch;
pub mod help;
pub mod index;
pub mod launcher;
pub mod laws;
pub mod listing;
pub mod node;
pub mod operation;
pub mod order;
pub mod packages;
pub mod pacman;
pub mod registry;
pub mod run;
pub mod text;
pub mod text_map;
pub mod updates;
pub mod upgrades;
pub mod version;

pub use cli::parse;
pub use dialect::{preprocess, take_frontend, Dialect};
pub use error::Error;
pub use help::print_help;
pub use index::{index_path, latest_version, IndexCache};
pub use operation::Operation;
pub use packages::{
    installed_packages_in, overlay_crates2, parse_crates_toml, InstallOptions, InstalledPackage,
    PackageSource,
};
pub use registry::{trim_protocol, Registries, Registry, CRATES_IO_NAME};
pub use run::run_with;
pub use updates::{available_updates, print_updates, PackageUpdate};
pub use upgrades::{upgrade_args, UpgradeOptions};
pub use version::Version;
