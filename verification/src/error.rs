//! Errors, the messages that they print and the exit status that they lead to.

use vstd::prelude::*;

use crate::text::{concat2, concat3, decimal, decimal_text, join, joined, texts};

verus! {

/// `std::io::Error`, carried as it is.
#[verifier::external_type_specification]
#[verifier::external_body]
pub struct ExIoError(std::io::Error);

/// A recoverable failure from parsing, configuration, the network, or Cargo.
#[derive(Debug)]
pub enum Error {
    /// An I/O failure, with a short description of what was being done.
    Io {
        /// Human-readable context, for example `could not read ~/.cargo/.crates.toml`.
        context: String,
        /// The underlying I/O error.
        source: std::io::Error,
    },
    /// Invalid CLI usage. The process should exit with status 2.
    Usage(String),
    /// A command-line argument was not valid UTF-8.
    Utf8,
    /// Cargo configuration could not be read or was invalid.
    Config(String),
    /// A registry index lookup failed.
    Registry(String),
    /// A spawned `cargo` process failed to start or returned a non-success status.
    Cargo {
        /// The cargo subcommand, for example `install` or `info`.
        command: String,
        /// Extra detail (spawn error or `failed for <package>`).
        detail: String,
    },
    /// An upgrade run finished with one or more packages that failed to install.
    Upgrade {
        /// Packages that upgraded successfully.
        succeeded: usize,
        /// Package names that failed.
        failed: Vec<String>,
    },
    /// The named crate is not in the install records.
    NotInstalled(String),
}

/// The value of an [`Error`], with texts in place of strings.
pub enum ErrorView {
    /// See [`Error::Io`].
    Io { context: Seq<char>, source: std::io::Error },
    /// See [`Error::Usage`].
    Usage(Seq<char>),
    /// See [`Error::Utf8`].
    Utf8,
    /// See [`Error::Config`].
    Config(Seq<char>),
    /// See [`Error::Registry`].
    Registry(Seq<char>),
    /// See [`Error::Cargo`].
    Cargo { command: Seq<char>, detail: Seq<char> },
    /// See [`Error::Upgrade`].
    Upgrade { succeeded: nat, failed: Seq<Seq<char>> },
    /// See [`Error::NotInstalled`].
    NotInstalled(Seq<char>),
}

impl View for Error {
    type V = ErrorView;

    open spec fn view(&self) -> ErrorView {
        match *self {
            Error::Io { context, source } => ErrorView::Io { context: context@, source },
            Error::Usage(message) => ErrorView::Usage(message@),
            Error::Utf8 => ErrorView::Utf8,
            Error::Config(message) => ErrorView::Config(message@),
            Error::Registry(message) => ErrorView::Registry(message@),
            Error::Cargo { command, detail } => ErrorView::Cargo {
                command: command@,
                detail: detail@,
            },
            Error::Upgrade { succeeded, failed } => ErrorView::Upgrade {
                succeeded: succeeded as nat,
                failed: texts(failed@),
            },
            Error::NotInstalled(name) => ErrorView::NotInstalled(name@),
        }
    }
}

/// The value of a result whose payload has a view.
pub open spec fn result_view<T: View>(r: Result<T, Error>) -> Result<T::V, ErrorView> {
    match r {
        Ok(value) => Ok(value@),
        Err(error) => Err(error@),
    }
}

/// The value of an option whose payload has a view.
pub open spec fn opt_view<T: View>(value: Option<T>) -> Option<T::V> {
    match value {
        Some(value) => Some(value@),
        None => None,
    }
}

/// The value of a result whose payload is an option.
pub open spec fn result_opt_view<T: View>(r: Result<Option<T>, Error>) -> Result<
    Option<T::V>,
    ErrorView,
> {
    match r {
        Ok(value) => Ok(opt_view(value)),
        Err(error) => Err(error@),
    }
}

/// The plural ending for a count.
pub open spec fn plural(count: nat) -> Seq<char> {
    if count == 1 {
        ""@
    } else {
        "s"@
    }
}

/// The plural ending for a count.
pub fn plural_ending(count: usize) -> (r: &'static str)
    ensures
        r@ == plural(count as nat),
{
    if count == 1 {
        ""
    } else {
        "s"
    }
}

/// The message of an error. Of an I/O error it is only the context, as the
/// rest is up to the operating system.
pub open spec fn message_of(error: ErrorView) -> Seq<char> {
    match error {
        ErrorView::Io { context, source } => context,
        ErrorView::Usage(text) => text,
        ErrorView::Config(text) => text,
        ErrorView::Registry(text) => text,
        ErrorView::Utf8 => "argument is not valid UTF-8"@,
        ErrorView::Cargo { command, detail } => "cargo "@ + command + ": "@ + detail,
        ErrorView::Upgrade { succeeded, failed } => "upgraded "@ + decimal(succeeded)
            + " package"@ + plural(succeeded) + "; failed: "@ + joined(failed, ", "@),
        ErrorView::NotInstalled(name) => "package '"@ + name + "' is not installed"@,
    }
}

/// Whether `message` is what a user is shown for `error`. An I/O error shows
/// its context and whatever the operating system's error displays; every other
/// error has exactly one message.
pub open spec fn shows(error: ErrorView, message: Seq<char>) -> bool {
    match error {
        ErrorView::Io { context, source } => exists|shown: String|
            {
                &&& #[trigger] vstd::string::to_string_from_display_ensures(&source, shown)
                &&& message == context + ": "@ + shown@
            },
        _ => message == message_of(error),
    }
}

/// The exit status that an error leads to.
pub open spec fn exit_status(error: ErrorView) -> u8 {
    if error is Usage {
        2
    } else {
        1
    }
}

impl Error {
    /// Wrap an I/O error with context.
    pub fn io(context: String, source: std::io::Error) -> (r: Self)
        ensures
            r@ == (ErrorView::Io { context: context@, source }),
    {
        Error::Io { context, source }
    }

    /// Exit status of a process that ends with this error: usage errors exit
    /// with 2, everything else with 1.
    pub fn exit_code(&self) -> (r: u8)
        ensures
            r == exit_status(self@),
    {
        match self {
            Error::Usage(_) => 2,
            _ => 1,
        }
    }

    /// The message that a user is shown.
    pub fn message(&self) -> (r: String)
        ensures
            shows(self@, r@),
    {
        match self {
            Error::Io { context, source } => {
                let shown = source.to_string();
                let out = concat3(context.as_str(), ": ", shown.as_str());
                assert(self@ is Io);
                assert(self@->source == *source);
                assert(self@->context == context@);
                assert(vstd::string::to_string_from_display_ensures(&self@->source, shown));
                assert(out@ == self@->context + ": "@ + shown@);
                assert(shows(self@, out@));
                out
            },
            Error::Usage(message) => message.clone(),
            Error::Config(message) => message.clone(),
            Error::Registry(message) => message.clone(),
            Error::Utf8 => "argument is not valid UTF-8".to_string(),
            Error::Cargo { command, detail } => {
                let mut out = concat3("cargo ", command.as_str(), ": ");
                out.append(detail.as_str());
                out
            },
            Error::Upgrade { succeeded, failed } => {
                let mut out = concat2("upgraded ", decimal_text(*succeeded as u64).as_str());
                out.append(" package");
                out.append(plural_ending(*succeeded));
                out.append("; failed: ");
                out.append(join(failed.as_slice(), ", ").as_str());
                assert(shows(self@, out@));
                out
            },
            Error::NotInstalled(name) => concat3("package '", name.as_str(), "' is not installed"),
        }
    }
}

} // verus!
