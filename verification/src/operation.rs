//! What a command line asks for.

use vstd::prelude::*;

use crate::text::texts;

verus! {

/// A parsed package-manager operation.
#[derive(Debug, Clone, PartialEq, Eq)]
pub enum Operation {
    /// Install one or more crates, forwarding extra arguments to `cargo install`.
    Install {
        /// Crate names or `name@version` specs.
        packages: Vec<String>,
        /// Extra arguments forwarded to `cargo install`.
        cargo_args: Vec<String>,
        /// Print the cargo command instead of running it.
        dry_run: bool,
    },
    /// Uninstall one or more crates.
    Remove {
        /// Crate names to uninstall.
        packages: Vec<String>,
        /// Extra arguments forwarded to `cargo uninstall`.
        cargo_args: Vec<String>,
        /// Print the cargo command instead of running it.
        dry_run: bool,
    },
    /// Query registries and print available upgrades.
    CheckUpdates,
    /// Upgrade every outdated crate, optionally installing extra packages
    /// afterwards (pacman `-Syu pkg`).
    Upgrade {
        /// Print planned upgrades without running `cargo install`.
        dry_run: bool,
        /// Pass `--locked` to `cargo install`.
        locked: bool,
        /// Extra crates to install after the upgrade (pacman `-Syu pkg`).
        also_install: Vec<String>,
        /// Extra arguments for those extra installs.
        install_args: Vec<String>,
    },
    /// `cargo search`.
    Search(String),
    /// `cargo info` for one or more packages.
    Info(Vec<String>),
    /// List installed packages, optionally restricted to named crates.
    List {
        /// Exact package names to show, as in `pacman -Q foo bar`.
        query: Option<Vec<String>>,
    },
    /// Print frontend-specific help.
    Help,
}

/// The value of an [`Operation`], with texts in place of strings.
#[verifier::ext_equal]
pub enum OperationView {
    /// See [`Operation::Install`].
    Install { packages: Seq<Seq<char>>, cargo_args: Seq<Seq<char>>, dry_run: bool },
    /// See [`Operation::Remove`].
    Remove { packages: Seq<Seq<char>>, cargo_args: Seq<Seq<char>>, dry_run: bool },
    /// See [`Operation::CheckUpdates`].
    CheckUpdates,
    /// See [`Operation::Upgrade`].
    Upgrade {
        dry_run: bool,
        locked: bool,
        also_install: Seq<Seq<char>>,
        install_args: Seq<Seq<char>>,
    },
    /// See [`Operation::Search`].
    Search(Seq<char>),
    /// See [`Operation::Info`].
    Info(Seq<Seq<char>>),
    /// See [`Operation::List`].
    List { query: Option<Seq<Seq<char>>> },
    /// See [`Operation::Help`].
    Help,
}

impl View for Operation {
    type V = OperationView;

    open spec fn view(&self) -> OperationView {
        match *self {
            Operation::Install { packages, cargo_args, dry_run } => OperationView::Install {
                packages: texts(packages@),
                cargo_args: texts(cargo_args@),
                dry_run,
            },
            Operation::Remove { packages, cargo_args, dry_run } => OperationView::Remove {
                packages: texts(packages@),
                cargo_args: texts(cargo_args@),
                dry_run,
            },
            Operation::CheckUpdates => OperationView::CheckUpdates,
            Operation::Upgrade { dry_run, locked, also_install, install_args } =>
                OperationView::Upgrade {
                dry_run,
                locked,
                also_install: texts(also_install@),
                install_args: texts(install_args@),
            },
            Operation::Search(query) => OperationView::Search(query@),
            Operation::Info(packages) => OperationView::Info(texts(packages@)),
            Operation::List { query } => OperationView::List {
                query: match query {
                    Some(names) => Some(texts(names@)),
                    None => None,
                },
            },
            Operation::Help => OperationView::Help,
        }
    }
}

} // verus!
