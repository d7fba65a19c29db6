//! What became of a `cargo` process.

use vstd::prelude::*;

use crate::error::{Error, ErrorView};
use crate::text::concat2;

verus! {

/// How a `cargo` process ended.
#[derive(Debug)]
pub enum CargoStatus {
    /// It did not start, and why.
    NotStarted(String),
    /// It ended, with success or without.
    Ended {
        /// Whether it succeeded.
        success: bool,
    },
}

/// The value of a [`CargoStatus`].
pub enum CargoStatusView {
    /// See [`CargoStatus::NotStarted`].
    NotStarted(Seq<char>),
    /// See [`CargoStatus::Ended`].
    Ended { success: bool },
}

impl View for CargoStatus {
    type V = CargoStatusView;

    open spec fn view(&self) -> CargoStatusView {
        match *self {
            CargoStatus::NotStarted(message) => CargoStatusView::NotStarted(message@),
            CargoStatus::Ended { success } => CargoStatusView::Ended { success },
        }
    }
}

/// What a `cargo` process comes to; `failure` is said of one that failed.
pub open spec fn cargo_outcome(
    command: Seq<char>,
    failure: Seq<char>,
    status: CargoStatusView,
) -> Result<(), ErrorView> {
    match status {
        CargoStatusView::NotStarted(message) => Err(
            ErrorView::Cargo { command, detail: message },
        ),
        CargoStatusView::Ended { success: true } => Ok(()),
        CargoStatusView::Ended { success: false } => Err(
            ErrorView::Cargo { command, detail: failure },
        ),
    }
}

/// The value of a result without a payload.
pub open spec fn unit_view(r: Result<(), Error>) -> Result<(), ErrorView> {
    match r {
        Ok(()) => Ok(()),
        Err(error) => Err(error@),
    }
}

/// What a `cargo` process comes to; `failure` is said of one that failed.
pub fn cargo_result(command: &str, failure: &str, status: CargoStatus) -> (r: Result<(), Error>)
    ensures
        unit_view(r) == cargo_outcome(command@, failure@, status@),
{
    match status {
        CargoStatus::NotStarted(message) => Err(
            Error::Cargo { command: command.to_string(), detail: message },
        ),
        CargoStatus::Ended { success } => if success {
            Ok(())
        } else {
            Err(Error::Cargo { command: command.to_string(), detail: failure.to_string() })
        },
    }
}

/// What a `cargo` call comes to.
pub open spec fn call_outcome(command: Seq<char>, status: CargoStatusView) -> Result<
    (),
    ErrorView,
> {
    cargo_outcome(command, "command failed"@, status)
}

/// What `cargo info` comes to for a package.
pub open spec fn info_outcome(package: Seq<char>, status: CargoStatusView) -> Result<
    (),
    ErrorView,
> {
    cargo_outcome("info"@, "failed for "@ + package, status)
}

/// What a `cargo` call comes to.
pub fn call_result(command: &str, status: CargoStatus) -> (r: Result<(), Error>)
    ensures
        unit_view(r) == call_outcome(command@, status@),
{
    cargo_result(command, "command failed", status)
}

/// What `cargo info` comes to for a package.
pub fn info_result(package: &str, status: CargoStatus) -> (r: Result<(), Error>)
    ensures
        unit_view(r) == info_outcome(package@, status@),
{
    cargo_result("info", concat2("failed for ", package).as_str(), status)
}

} // verus!
