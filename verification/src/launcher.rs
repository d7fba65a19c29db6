//! The frontend launchers: small programs that re-invoke `cargo-pkgman` with a
//! frontend selected.

use vstd::prelude::*;

use crate::dialect::{
    dialect_named, frontend_request, preprocessed, subcommand_of, Dialect, FrontendRequest,
};
use crate::error::ErrorView;
use crate::packages::push_arg;
use crate::text::{concat2, texts};

verus! {

/// The program that every launcher re-invokes.
pub const EXECUTABLE: &'static str = "cargo-pkgman";

/// The arguments that select a frontend; a launcher's own arguments follow.
pub open spec fn frontend_args(frontend: Seq<char>) -> Seq<Seq<char>> {
    seq!["--frontend"@, frontend, "--"@]
}

/// The arguments that select a frontend. Every argument of the launcher follows
/// them untouched, so that operations such as `-Syu` survive.
pub fn launch_args(frontend: &str) -> (r: Vec<String>)
    ensures
        texts(r@) == frontend_args(frontend@),
{
    let mut args: Vec<String> = Vec::new();
    assert(texts(args@) =~= Seq::<Seq<char>>::empty());
    push_arg(&mut args, "--frontend");
    push_arg(&mut args, frontend);
    push_arg(&mut args, "--");
    assert(texts(args@) =~= frontend_args(frontend@));
    args
}

/// The lines that say that [`EXECUTABLE`] could not be run.
pub open spec fn failure_lines(message: Seq<char>) -> Seq<Seq<char>> {
    seq![
        "error: could not run cargo-pkgman: "@ + message,
        "note: reinstall it with `cargo install cargo-pkgman`"@,
    ]
}

/// The lines that say that [`EXECUTABLE`] could not be run.
pub fn launch_failure(message: &str) -> (r: Vec<String>)
    ensures
        texts(r@) == failure_lines(message@),
{
    let mut lines: Vec<String> = Vec::new();
    assert(texts(lines@) =~= Seq::<Seq<char>>::empty());
    push_arg(&mut lines, concat2("error: could not run cargo-pkgman: ", message).as_str());
    push_arg(&mut lines, "note: reinstall it with `cargo install cargo-pkgman`");
    assert(texts(lines@) =~= failure_lines(message@));
    lines
}

/// The exit status that a launcher forwards: that of the program, or 1 where
/// it has none or does not fit.
pub open spec fn forwarded(code: Option<i32>) -> u8 {
    match code {
        Some(code) => if 0 <= code <= 255 {
            code as u8
        } else {
            1
        },
        None => 1,
    }
}

/// The exit status that a launcher forwards.
pub fn forwarded_status(code: Option<i32>) -> (r: u8)
    ensures
        r == forwarded(code),
{
    match code {
        Some(code) => if 0 <= code && code <= 255 {
            code as u8
        } else {
            1
        },
        None => 1,
    }
}

/// The frontend names of [`Dialect`] and its subcommands agree.
pub proof fn subcommand_names_its_dialect(dialect: Dialect)
    ensures
        dialect_named(subcommand_of(dialect)) == Some(dialect),
{
    reveal_strlit("pm");
    reveal_strlit("pkgman");
    reveal_strlit("pacman");
    reveal_strlit("apt");
    reveal_strlit("dnf");
    assert("pkgman"@[0] != "pacman"@[0] || "pkgman"@[1] != "pacman"@[1]);
    assert("apt"@[0] != "dnf"@[0]);
}

/// A launched command line reaches the launcher's frontend with the arguments
/// that the launcher got, whether or not Cargo put the subcommand in front.
pub proof fn launched_line_reaches_its_frontend(dialect: Dialect, rest: Seq<Seq<char>>)
    ensures
        preprocessed(
            frontend_args(subcommand_of(dialect)) + seq![subcommand_of(dialect)] + rest,
        ) == Ok::<(Dialect, Seq<Seq<char>>), ErrorView>((dialect, rest)),
        (rest.len() == 0 || rest[0] != subcommand_of(dialect)) ==> preprocessed(
            frontend_args(subcommand_of(dialect)) + rest,
        ) == Ok::<(Dialect, Seq<Seq<char>>), ErrorView>((dialect, rest)),
{
    reveal_strlit("--frontend");
    reveal_strlit("pkgman");
    subcommand_names_its_dialect(dialect);
    let sub = subcommand_of(dialect);
    let full = frontend_args(sub) + seq![sub] + rest;
    assert(full[0] == "--frontend"@);
    assert("--frontend"@.len() != "pkgman"@.len());
    assert(full.skip(2) =~= seq!["--"@, sub] + rest);
    assert(full.skip(2).skip(1) =~= seq![sub] + rest);
    assert((seq![sub] + rest).skip(1) =~= rest);
    let short = frontend_args(sub) + rest;
    assert(short[0] == "--frontend"@);
    assert(short.skip(2) =~= seq!["--"@] + rest);
    assert(short.skip(2).skip(1) =~= rest);
}

/// `--frontend=<name>` and `--frontend <name>` are the same.
pub proof fn frontend_spellings_agree(name: Seq<char>, rest: Seq<Seq<char>>)
    ensures
        preprocessed(seq!["--frontend="@ + name] + rest) == preprocessed(
            seq!["--frontend"@, name] + rest,
        ),
{
    reveal_strlit("--frontend=");
    reveal_strlit("--frontend");
    reveal_strlit("pkgman");
    let one = seq!["--frontend="@ + name] + rest;
    let two = seq!["--frontend"@, name] + rest;
    assert(one[0] == "--frontend="@ + name);
    assert(one[0][0] == '-');
    assert("pkgman"@[0] == 'p');
    assert(one[0].len() > "--frontend"@.len());
    assert("--frontend="@.is_prefix_of(one[0])) by {
        assert(one[0].subrange(0, 11) =~= "--frontend="@);
    }
    assert(one[0].skip(11) =~= name);
    assert(two[0] == "--frontend"@);
    assert(two[0].len() != "pkgman"@.len());
    assert(one.skip(1) =~= rest);
    assert(two.skip(2) =~= rest);
    assert(frontend_request(one) == (FrontendRequest::Named { name, rest }));
    assert(frontend_request(two) == (FrontendRequest::Named { name, rest }));
}

/// `cargo pkgman list` may run `cargo-pkgman pkgman list`: the subcommand in
/// front does not count.
pub proof fn own_subcommand_does_not_count(rest: Seq<Seq<char>>)
    requires
        rest.len() == 0 || rest[0] != "pkgman"@,
    ensures
        preprocessed(seq!["pkgman"@] + rest) == preprocessed(rest),
{
    assert((seq!["pkgman"@] + rest).skip(1) =~= rest);
}

} // verus!
