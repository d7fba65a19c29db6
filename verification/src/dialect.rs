//! Frontends, and how the one in use is read off the command line.

use vstd::prelude::*;

use crate::error::{Error, ErrorView};
use crate::text::{concat3, same, strip_prefix, texts, without_prefix};

verus! {

/// A package-manager frontend.
///
/// Each frontend is a Cargo subcommand (`cargo pacman`, `cargo apt`, …)
/// whose arguments become a single [`crate::Operation`].
#[derive(Debug, Clone, Copy, PartialEq, Eq, Structural)]
pub enum Dialect {
    /// `cargo pm` / `cargo pkgman`.
    Native,
    /// Arch Linux `pacman`-style clustered flags.
    Pacman,
    /// Debian/Ubuntu `apt`-style commands.
    Apt,
    /// Fedora `dnf`-style commands.
    Dnf,
}

/// The frontend that goes by `name`.
pub open spec fn dialect_named(name: Seq<char>) -> Option<Dialect> {
    if name == "pm"@ || name == "pkgman"@ {
        Some(Dialect::Native)
    } else if name == "pacman"@ {
        Some(Dialect::Pacman)
    } else if name == "apt"@ {
        Some(Dialect::Apt)
    } else if name == "dnf"@ {
        Some(Dialect::Dnf)
    } else {
        None
    }
}

/// The Cargo subcommand of a frontend.
pub open spec fn subcommand_of(dialect: Dialect) -> Seq<char> {
    match dialect {
        Dialect::Native => "pm"@,
        Dialect::Pacman => "pacman"@,
        Dialect::Apt => "apt"@,
        Dialect::Dnf => "dnf"@,
    }
}

impl Dialect {
    /// The name a launcher passes to `--frontend`, which is also the Cargo
    /// subcommand that frontend is invoked as.
    pub fn from_name(name: &str) -> (r: Option<Self>)
        ensures
            r == dialect_named(name@),
    {
        if same(name, "pm") || same(name, "pkgman") {
            Some(Dialect::Native)
        } else if same(name, "pacman") {
            Some(Dialect::Pacman)
        } else if same(name, "apt") {
            Some(Dialect::Apt)
        } else if same(name, "dnf") {
            Some(Dialect::Dnf)
        } else {
            None
        }
    }

    /// Cargo subcommand / `--frontend` value for this dialect.
    pub fn subcommand(self) -> (r: &'static str)
        ensures
            r@ == subcommand_of(self),
    {
        match self {
            Dialect::Native => "pm",
            Dialect::Pacman => "pacman",
            Dialect::Apt => "apt",
            Dialect::Dnf => "dnf",
        }
    }
}

/// `args` without `word`, if that is what they start with.
pub open spec fn without_leading(args: Seq<Seq<char>>, word: Seq<char>) -> Seq<Seq<char>> {
    if args.len() > 0 && args[0] == word {
        args.skip(1)
    } else {
        args
    }
}

/// What the start of an argument list says of the frontend.
pub enum FrontendRequest {
    /// Nothing.
    Absent,
    /// `--frontend` and no name after it.
    MissingName,
    /// A name, and the arguments after it.
    Named { name: Seq<char>, rest: Seq<Seq<char>> },
}

/// What the start of `args` says of the frontend: `--frontend <name>` and
/// `--frontend=<name>` name one.
pub open spec fn frontend_request(args: Seq<Seq<char>>) -> FrontendRequest {
    if args.len() == 0 {
        FrontendRequest::Absent
    } else if args[0] == "--frontend"@ {
        if args.len() == 1 {
            FrontendRequest::MissingName
        } else {
            FrontendRequest::Named { name: args[1], rest: args.skip(2) }
        }
    } else {
        match without_prefix(args[0], "--frontend="@) {
            Some(name) => FrontendRequest::Named { name, rest: args.skip(1) },
            None => FrontendRequest::Absent,
        }
    }
}

/// The frontend that `args` select.
pub open spec fn selected_frontend(args: Seq<Seq<char>>) -> Result<Dialect, ErrorView> {
    match frontend_request(args) {
        FrontendRequest::Absent => Ok(Dialect::Native),
        FrontendRequest::MissingName => Err(
            ErrorView::Usage("--frontend requires a frontend name"@),
        ),
        FrontendRequest::Named { name, rest } => match dialect_named(name) {
            Some(dialect) => Ok(dialect),
            None => Err(ErrorView::Usage("unknown frontend '"@ + name + "'"@)),
        },
    }
}

/// What is left of `args` when the frontend has been taken off: the option, its
/// name and a `--` behind them are gone.
pub open spec fn after_frontend(args: Seq<Seq<char>>) -> Seq<Seq<char>> {
    match frontend_request(args) {
        FrontendRequest::Named { name, rest } => without_leading(rest, "--"@),
        _ => args,
    }
}

/// The frontend and its arguments for a full command line.
pub open spec fn preprocessed(args: Seq<Seq<char>>) -> Result<
    (Dialect, Seq<Seq<char>>),
    ErrorView,
> {
    let stripped = without_leading(args, "pkgman"@);
    match selected_frontend(stripped) {
        Ok(dialect) => Ok(
            (dialect, without_leading(after_frontend(stripped), subcommand_of(dialect))),
        ),
        Err(error) => Err(error),
    }
}

/// Removes `word` from the front of `args`, if it is there.
fn drop_leading(args: &mut Vec<String>, word: &str)
    ensures
        texts(final(args)@) == without_leading(texts(old(args)@), word@),
{
    if args.len() > 0 && same(args[0].as_str(), word) {
        let first = args.remove(0);
        assert(texts(args@) =~= texts(old(args)@).skip(1));
    }
}

/// Strip the Cargo subcommand name, a leading `--frontend`, and the matching
/// dialect subcommand so the remaining arguments can be parsed.
pub fn preprocess(mut args: Vec<String>) -> (r: Result<(Dialect, Vec<String>), Error>)
    ensures
        (match r {
            Ok(pair) => Ok((pair.0, texts(pair.1@))),
            Err(error) => Err(error@),
        }) == preprocessed(texts(args@)),
{
    // `cargo pkgman list` may invoke `cargo-pkgman pkgman list`.
    drop_leading(&mut args, "pkgman");

    let dialect = match take_frontend(&mut args) {
        Ok(dialect) => dialect,
        Err(error) => return Err(error),
    };

    // A launcher forwards its own arguments verbatim, so the frontend
    // subcommand can still be leading:
    //
    //     cargo apt upgrade
    //       -> cargo-apt apt upgrade
    //       -> cargo-pkgman --frontend apt -- apt upgrade
    drop_leading(&mut args, dialect.subcommand());

    Ok((dialect, args))
}

/// Take a leading `--frontend <name>` or `--frontend=<name>` along with the
/// `--` separator that follows it.
///
/// Running cargo-pkgman without one behaves like the native frontend.
pub fn take_frontend(args: &mut Vec<String>) -> (r: Result<Dialect, Error>)
    ensures
        (match r {
            Ok(dialect) => Ok(dialect),
            Err(error) => Err(error@),
        }) == selected_frontend(texts(old(args)@)),
        texts(final(args)@) == after_frontend(texts(old(args)@)),
{
    if args.len() == 0 {
        return Ok(Dialect::Native);
    }
    let ghost before = texts(args@);
    let name: String;
    if same(args[0].as_str(), "--frontend") {
        if args.len() == 1 {
            return Err(Error::Usage("--frontend requires a frontend name".to_string()));
        }
        name = args.remove(1);
        let flag = args.remove(0);
        assert(texts(args@) =~= before.skip(2));
    } else {
        match strip_prefix(args[0].as_str(), "--frontend=") {
            Some(given) => {
                name = given.to_string();
            },
            None => return Ok(Dialect::Native),
        }
        let flag = args.remove(0);
        assert(texts(args@) =~= before.skip(1));
    }

    drop_leading(args, "--");

    match Dialect::from_name(name.as_str()) {
        Some(dialect) => Ok(dialect),
        None => Err(Error::Usage(concat3("unknown frontend '", name.as_str(), "'"))),
    }
}

} // verus!
