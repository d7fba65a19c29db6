//! The help text of each frontend.

use vstd::prelude::*;

use crate::dialect::{subcommand_of, Dialect};

verus! {

/// Help for `cargo pm`.
pub const NATIVE_HELP: &'static str = "\
cargo pm - package manager for Cargo-installed binaries

Usage:
  cargo pm install [cargo-install-flags] <package...>
  cargo pm remove [cargo-uninstall-flags] <package...>
  cargo pm update
  cargo pm upgrade [--dry-run] [--locked]
  cargo pm search <query>
  cargo pm info <package...>
  cargo pm list

Aliases: add, uninstall, check, outdated, show

Install arguments are forwarded to `cargo install`. Version specs
(`ripgrep@14`), --locked, --features, --git, and --path are accepted.

--dry-run   print the planned cargo command without running it
--locked    pass --locked to cargo install on upgrade or install";

/// Help for `cargo pacman`.
pub const PACMAN_HELP: &'static str = "\
cargo pacman

  cargo pacman -S <package...>          install
  cargo pacman -R <package...>          remove
  cargo pacman -Sy                      check for updates
  cargo pacman -Su                      upgrade all
  cargo pacman -Syu                     upgrade all
  cargo pacman -Syu <package...>        upgrade all, then install
  cargo pacman -Ss <query>              search
  cargo pacman -Si <package...>         info
  cargo pacman -Q                       list installed
  cargo pacman -Q <package...>          list named packages
  cargo pacman -Qu                      check for updates

Clustered flags such as -Sy -u and -Syyu are accepted.
-p / --print / --dry-run prints the plan without installing.";

/// Help for `cargo apt`.
pub const APT_HELP: &'static str = "\
cargo apt

  cargo apt update
  cargo apt upgrade [--dry-run]
  cargo apt install [-y] <package...>
  cargo apt remove <package...>
  cargo apt search <query>
  cargo apt show <package...>
  cargo apt list --installed
  cargo apt list --upgradable

-y is accepted and ignored (cargo install does not prompt).
-s / --simulate / --dry-run prints the plan without installing.";

/// Help for `cargo dnf`.
pub const DNF_HELP: &'static str = "\
cargo dnf

  cargo dnf check-update
  cargo dnf upgrade [--dry-run]
  cargo dnf install [-y] <package...>
  cargo dnf remove <package...>
  cargo dnf search <query>
  cargo dnf info <package...>
  cargo dnf list installed
  cargo dnf list updates

-y is accepted and ignored (cargo install does not prompt).
-n / --assumeno / --dry-run prints the plan without installing.
check-update exits with status 100 when upgrades are available.";

/// The help text of a frontend.
pub open spec fn help_text(dialect: Dialect) -> Seq<char> {
    match dialect {
        Dialect::Native => NATIVE_HELP@,
        Dialect::Pacman => PACMAN_HELP@,
        Dialect::Apt => APT_HELP@,
        Dialect::Dnf => DNF_HELP@,
    }
}

/// The help text of a frontend, to be printed with a line break behind it.
pub fn print_help(dialect: Dialect) -> (r: &'static str)
    ensures
        r@ == help_text(dialect),
{
    match dialect {
        Dialect::Native => NATIVE_HELP,
        Dialect::Pacman => PACMAN_HELP,
        Dialect::Apt => APT_HELP,
        Dialect::Dnf => DNF_HELP,
    }
}

/// The help of each frontend starts with the command that it is for.
pub proof fn help_starts_with_its_command(dialect: Dialect)
    ensures
        ("cargo "@ + subcommand_of(dialect)).is_prefix_of(help_text(dialect)),
{
    reveal_strlit("cargo ");
    match dialect {
        Dialect::Native => {
            reveal_strlit("pm");
            reveal_strlit(
                "\
cargo pm - package manager for Cargo-installed binaries

Usage:
  cargo pm install [cargo-install-flags] <package...>
  cargo pm remove [cargo-uninstall-flags] <package...>
  cargo pm update
  cargo pm upgrade [--dry-run] [--locked]
  cargo pm search <query>
  cargo pm info <package...>
  cargo pm list

Aliases: add, uninstall, check, outdated, show

Install arguments are forwarded to `cargo install`. Version specs
(`ripgrep@14`), --locked, --features, --git, and --path are accepted.

--dry-run   print the planned cargo command without running it
--locked    pass --locked to cargo install on upgrade or install",
            );
            assert(help_text(dialect).subrange(0, 8) =~= "cargo "@ + "pm"@);
        },
        Dialect::Pacman => {
            reveal_strlit("pacman");
            reveal_strlit(
                "\
cargo pacman

  cargo pacman -S <package...>          install
  cargo pacman -R <package...>          remove
  cargo pacman -Sy                      check for updates
  cargo pacman -Su                      upgrade all
  cargo pacman -Syu                     upgrade all
  cargo pacman -Syu <package...>        upgrade all, then install
  cargo pacman -Ss <query>              search
  cargo pacman -Si <package...>         info
  cargo pacman -Q                       list installed
  cargo pacman -Q <package...>          list named packages
  cargo pacman -Qu                      check for updates

Clustered flags such as -Sy -u and -Syyu are accepted.
-p / --print / --dry-run prints the plan without installing.",
            );
            assert(help_text(dialect).subrange(0, 12) =~= "cargo "@ + "pacman"@);
        },
        Dialect::Apt => {
            reveal_strlit("apt");
            reveal_strlit(
                "\
cargo apt

  cargo apt update
  cargo apt upgrade [--dry-run]
  cargo apt install [-y] <package...>
  cargo apt remove <package...>
  cargo apt search <query>
  cargo apt show <package...>
  cargo apt list --installed
  cargo apt list --upgradable

-y is accepted and ignored (cargo install does not prompt).
-s / --simulate / --dry-run prints the plan without installing.",
            );
            assert(help_text(dialect).subrange(0, 9) =~= "cargo "@ + "apt"@);
        },
        Dialect::Dnf => {
            reveal_strlit("dnf");
            reveal_strlit(
                "\
cargo dnf

  cargo dnf check-update
  cargo dnf upgrade [--dry-run]
  cargo dnf install [-y] <package...>
  cargo dnf remove <package...>
  cargo dnf search <query>
  cargo dnf info <package...>
  cargo dnf list installed
  cargo dnf list updates

-y is accepted and ignored (cargo install does not prompt).
-n / --assumeno / --dry-run prints the plan without installing.
check-update exits with status 100 when upgrades are available.",
            );
            assert(help_text(dialect).subrange(0, 9) =~= "cargo "@ + "dnf"@);
        },
    }
}

} // verus!
