//! Argument parsing: every frontend's command line becomes an [`Operation`].

use vstd::prelude::*;

use crate::arguments::{
    has_word, info_op, info_operation, install_op, install_operation, remove_op, remove_operation,
    search_op, search_operation, split_args, upgrade_op, upgrade_operation,
};
use crate::dialect::Dialect;
use crate::error::{result_view, Error, ErrorView};
use crate::operation::{Operation, OperationView};
use crate::pacman::{
    letter_effect, no_flags, pacman_operation, parse_pacman, scan, scan_arg, scan_cluster, Effect,
    PacmanFlags, Scan,
};
use crate::text::{concat3, copy_strings, same, texts};

verus! {

/// Flags that every frontend accepts anywhere on the line.
pub struct Globals {
    /// `--dry-run`.
    pub dry_run: bool,
    /// `--locked`.
    pub locked: bool,
    /// `--help` or `-h`.
    pub help: bool,
}

/// Whether `arg` is a flag that every frontend accepts anywhere on the line.
pub open spec fn is_global(arg: Seq<char>) -> bool {
    arg == "--help"@ || arg == "-h"@ || arg == "--dry-run"@ || arg == "--locked"@
}

/// The arguments that are not global flags, in order.
pub open spec fn without_globals(args: Seq<Seq<char>>) -> Seq<Seq<char>> {
    args.filter(|arg: Seq<char>| !is_global(arg))
}

/// The global flags among `args`.
pub open spec fn globals_of(args: Seq<Seq<char>>) -> Globals {
    Globals {
        dry_run: args.contains("--dry-run"@),
        locked: args.contains("--locked"@),
        help: args.contains("--help"@) || args.contains("-h"@),
    }
}

/// `operation` with the global flags taken into account.
pub open spec fn with_globals(operation: OperationView, globals: Globals) -> OperationView {
    match operation {
        OperationView::Install { packages, cargo_args, dry_run } => OperationView::Install {
            packages,
            cargo_args: if globals.locked && !cargo_args.contains("--locked"@) {
                seq!["--locked"@] + cargo_args
            } else {
                cargo_args
            },
            dry_run: dry_run || globals.dry_run,
        },
        OperationView::Remove { packages, cargo_args, dry_run } => OperationView::Remove {
            packages,
            cargo_args,
            dry_run: dry_run || globals.dry_run,
        },
        OperationView::Upgrade { dry_run, locked, also_install, install_args } =>
            OperationView::Upgrade {
            dry_run: dry_run || globals.dry_run,
            locked: locked || globals.locked,
            also_install,
            install_args,
        },
        other => other,
    }
}

/// The operation that a frontend makes of arguments without global flags.
pub open spec fn operation_of(dialect: Dialect, args: Seq<Seq<char>>) -> Result<
    OperationView,
    ErrorView,
> {
    match dialect {
        Dialect::Native => native_operation(args),
        Dialect::Pacman => pacman_operation(args),
        Dialect::Apt => apt_operation(args),
        Dialect::Dnf => dnf_operation(args),
    }
}

/// The operation that a frontend's arguments stand for.
pub open spec fn parsed(dialect: Dialect, args: Seq<Seq<char>>) -> Result<
    OperationView,
    ErrorView,
> {
    let globals = globals_of(args);
    let rest = without_globals(args);
    if globals.help || rest.len() == 0 {
        Ok(OperationView::Help)
    } else {
        match operation_of(dialect, rest) {
            Ok(operation) => Ok(with_globals(operation, globals)),
            Err(error) => Err(error),
        }
    }
}

/// Parse frontend arguments into an [`Operation`].
pub fn parse(dialect: Dialect, args: &[String]) -> (r: Result<Operation, Error>)
    ensures
        result_view(r) == parsed(dialect, texts(args@)),
{
    let (globals, rest) = take_globals(args);

    if globals.help || rest.len() == 0 {
        return Ok(Operation::Help);
    }
    let result = match dialect {
        Dialect::Native => parse_native(rest.as_slice()),
        Dialect::Pacman => parse_pacman(rest.as_slice()),
        Dialect::Apt => parse_apt(rest.as_slice()),
        Dialect::Dnf => parse_dnf(rest.as_slice()),
    };
    match result {
        Ok(operation) => {
            let mut operation = operation;
            apply_globals(&mut operation, &globals);
            Ok(operation)
        },
        Err(error) => Err(error),
    }
}

proof fn lemma_contains_next(args: Seq<Seq<char>>, i: int, word: Seq<char>)
    requires
        0 <= i < args.len(),
    ensures
        args.take(i + 1).contains(word) == (args.take(i).contains(word) || args[i] == word),
{
    let next = args.take(i + 1);
    let now = args.take(i);
    if now.contains(word) {
        let j = choose|j: int| 0 <= j < now.len() && now[j] == word;
        assert(next[j] == word);
    }
    if args[i] == word {
        assert(next[i] == word);
    }
    if next.contains(word) && args[i] != word {
        let j = choose|j: int| 0 <= j < next.len() && next[j] == word;
        assert(now[j] == word);
    }
}

fn take_globals(args: &[String]) -> (r: (Globals, Vec<String>))
    ensures
        r.0 == globals_of(texts(args@)),
        texts(r.1@) == without_globals(texts(args@)),
{
    let mut globals = Globals { dry_run: false, locked: false, help: false };
    let mut rest: Vec<String> = Vec::new();
    let ghost all = texts(args@);
    let ghost keep = |arg: Seq<char>| !is_global(arg);
    assert(texts(rest@) =~= all.take(0).filter(keep)) by {
        reveal(Seq::filter);
    }
    let mut i: usize = 0;
    while i < args.len()
        invariant
            i <= args@.len(),
            all == texts(args@),
            keep == (|arg: Seq<char>| !is_global(arg)),
            globals == globals_of(all.take(i as int)),
            texts(rest@) == all.take(i as int).filter(keep),
        decreases args@.len() - i,
    {
        let arg = &args[i];
        let ghost before = rest@;
        proof {
            assert(all.take(i + 1) =~= all.take(i as int).push(all[i as int]));
            all.take(i as int).lemma_filter_push(all[i as int], keep);
            lemma_contains_next(all, i as int, "--dry-run"@);
            lemma_contains_next(all, i as int, "--locked"@);
            lemma_contains_next(all, i as int, "--help"@);
            lemma_contains_next(all, i as int, "-h"@);
        }
        let is_help = same(arg.as_str(), "--help") || same(arg.as_str(), "-h");
        let is_dry_run = same(arg.as_str(), "--dry-run");
        let is_locked = same(arg.as_str(), "--locked");
        if is_help {
            globals.help = true;
        }
        if is_dry_run {
            globals.dry_run = true;
        }
        if is_locked {
            globals.locked = true;
        }
        if !is_help && !is_dry_run && !is_locked {
            rest.push(arg.clone());
            assert(texts(rest@) =~= texts(before).push(arg@));
        }
        i = i + 1;
    }
    assert(all.take(i as int) =~= all);
    (globals, rest)
}

fn apply_globals(operation: &mut Operation, globals: &Globals)
    ensures
        final(operation)@ == with_globals(old(operation)@, *globals),
{
    match operation {
        Operation::Install { packages: _, cargo_args, dry_run } => {
            *dry_run = *dry_run || globals.dry_run;
            if globals.locked && !has_word(cargo_args.as_slice(), "--locked") {
                let ghost before = texts(cargo_args@);
                cargo_args.insert(0, "--locked".to_string());
                assert(texts(cargo_args@) =~= seq!["--locked"@] + before);
            }
        },
        Operation::Remove { packages: _, cargo_args: _, dry_run } => {
            *dry_run = *dry_run || globals.dry_run;
        },
        Operation::Upgrade { dry_run, locked, also_install: _, install_args: _ } => {
            *dry_run = *dry_run || globals.dry_run;
            *locked = *locked || globals.locked;
        },
        _ => {},
    }
}

/// Whether `word` is a command of the given frontend.
pub open spec fn is_command(dialect: Dialect, word: Seq<char>) -> bool {
    match dialect {
        Dialect::Native => word == "install"@ || word == "add"@ || word == "remove"@ || word
            == "uninstall"@ || word == "update"@ || word == "check"@ || word == "outdated"@ || word
            == "upgrade"@ || word == "search"@ || word == "info"@ || word == "show"@ || word
            == "list"@ || word == "help"@,
        Dialect::Pacman => false,
        Dialect::Apt => word == "update"@ || word == "upgrade"@ || word == "full-upgrade"@ || word
            == "dist-upgrade"@ || word == "install"@ || word == "remove"@ || word == "purge"@
            || word == "search"@ || word == "show"@ || word == "list"@ || word == "help"@,
        Dialect::Dnf => word == "install"@ || word == "remove"@ || word == "erase"@ || word
            == "upgrade"@ || word == "update"@ || word == "check-update"@ || word == "makecache"@
            || word == "search"@ || word == "info"@ || word == "list"@ || word == "help"@,
    }
}

/// The first command word among `args` and what follows it.
pub open spec fn first_command(dialect: Dialect, args: Seq<Seq<char>>) -> Option<
    (Seq<char>, Seq<Seq<char>>),
>
    decreases args.len(),
{
    if args.len() == 0 {
        None
    } else if is_command(dialect, args[0]) {
        Some((args[0], args.skip(1)))
    } else {
        first_command(dialect, args.skip(1))
    }
}

/// The command word and its arguments. Words before it are passed over, and a
/// line without a command is an error that names its first word.
pub open spec fn leading_command(dialect: Dialect, args: Seq<Seq<char>>) -> Result<
    (Seq<char>, Seq<Seq<char>>),
    ErrorView,
> {
    match first_command(dialect, args) {
        Some(found) => Ok(found),
        None => if args.len() == 0 {
            Ok(("help"@, args))
        } else {
            Err(ErrorView::Usage("unknown command '"@ + args[0] + "'"@))
        },
    }
}

/// The operation that a native command line stands for.
pub open spec fn native_operation(args: Seq<Seq<char>>) -> Result<OperationView, ErrorView> {
    match leading_command(Dialect::Native, args) {
        Err(error) => Err(error),
        Ok((command, rest)) => if command == "install"@ || command == "add"@ {
            install_operation(rest, false)
        } else if command == "remove"@ || command == "uninstall"@ {
            remove_operation(rest, false)
        } else if command == "update"@ || command == "check"@ || command == "outdated"@ {
            Ok(OperationView::CheckUpdates)
        } else if command == "upgrade"@ {
            Ok(upgrade_operation(rest, false, false))
        } else if command == "search"@ {
            search_operation(rest, "search"@)
        } else if command == "info"@ || command == "show"@ {
            info_operation(rest, "info"@)
        } else if command == "list"@ {
            Ok(OperationView::List { query: None })
        } else {
            Ok(OperationView::Help)
        },
    }
}

/// Whether `arg` makes an apt command a simulation.
pub open spec fn apt_simulates(arg: Seq<char>) -> bool {
    arg == "-s"@ || arg == "--simulate"@ || arg == "--just-print"@ || arg == "--recon"@ || arg
        == "--dry-run"@
}

/// Whether `arg` answers apt's questions, of which there are none here.
pub open spec fn apt_agrees(arg: Seq<char>) -> bool {
    arg == "-y"@ || arg == "--yes"@ || arg == "--assume-yes"@
}

/// Whether `arg` restricts an apt list to packages with upgrades.
pub open spec fn apt_upgradable(arg: Seq<char>) -> bool {
    arg == "--upgradable"@ || arg == "--upgradeable"@
}

/// Whether `arg` is a flag that apt accepts anywhere on the line.
pub open spec fn is_apt_flag(arg: Seq<char>) -> bool {
    apt_simulates(arg) || apt_agrees(arg) || arg == "--installed"@ || apt_upgradable(arg)
}

/// Whether an argument with the given property is among `args`.
pub open spec fn any_arg(args: Seq<Seq<char>>, property: spec_fn(Seq<char>) -> bool) -> bool {
    exists|i: int| 0 <= i < args.len() && property(#[trigger] args[i])
}

/// The operation that an apt command line stands for.
pub open spec fn apt_operation(args: Seq<Seq<char>>) -> Result<OperationView, ErrorView> {
    let dry_run = any_arg(args, |arg: Seq<char>| apt_simulates(arg));
    let installed = args.contains("--installed"@);
    let upgradable = any_arg(args, |arg: Seq<char>| apt_upgradable(arg));
    let words = args.filter(|arg: Seq<char>| !is_apt_flag(arg));
    if words.len() == 0 {
        Ok(OperationView::Help)
    } else {
        match leading_command(Dialect::Apt, words) {
            Err(error) => Err(error),
            Ok((command, rest)) => if command == "update"@ {
                Ok(OperationView::CheckUpdates)
            } else if command == "upgrade"@ || command == "full-upgrade"@ || command
                == "dist-upgrade"@ {
                Ok(upgrade_operation(rest, dry_run, false))
            } else if command == "install"@ {
                install_operation(rest, dry_run)
            } else if command == "remove"@ || command == "purge"@ {
                remove_operation(rest, dry_run)
            } else if command == "search"@ {
                search_operation(rest, "search"@)
            } else if command == "show"@ {
                info_operation(rest, "show"@)
            } else if command == "list"@ {
                if upgradable {
                    Ok(OperationView::CheckUpdates)
                } else if installed || rest.len() == 0 {
                    Ok(OperationView::List { query: None })
                } else {
                    Ok(OperationView::List { query: Some(rest) })
                }
            } else {
                Ok(OperationView::Help)
            },
        }
    }
}

/// Whether `arg` answers dnf's questions, of which there are none here.
pub open spec fn dnf_agrees(arg: Seq<char>) -> bool {
    arg == "-y"@ || arg == "--assumeyes"@ || arg == "--assume-yes"@
}

/// Whether `arg` makes a dnf command a simulation.
pub open spec fn dnf_declines(arg: Seq<char>) -> bool {
    arg == "-n"@ || arg == "--assumeno"@
}

/// The word that a dnf argument stands for.
pub open spec fn dnf_word(arg: Seq<char>) -> Seq<char> {
    if arg == "--installed"@ {
        "installed"@
    } else if arg == "--updates"@ || arg == "--upgradable"@ || arg == "--upgradeable"@ {
        "updates"@
    } else {
        arg
    }
}

/// The words of a dnf command line, in order.
pub open spec fn dnf_words(args: Seq<Seq<char>>) -> Seq<Seq<char>> {
    args.filter(|arg: Seq<char>| !dnf_agrees(arg) && !dnf_declines(arg)).map_values(
        |arg: Seq<char>| dnf_word(arg),
    )
}

/// Whether `arg` restricts a dnf list to packages with upgrades.
pub open spec fn dnf_wants_updates(arg: Seq<char>) -> bool {
    arg == "updates"@ || arg == "upgrades"@ || arg == "--updates"@ || arg == "--upgradable"@
}

/// Whether `arg` restricts a dnf list to installed packages.
pub open spec fn dnf_wants_installed(arg: Seq<char>) -> bool {
    arg == "installed"@ || arg == "--installed"@
}

/// The operation that a dnf command line stands for.
pub open spec fn dnf_operation(args: Seq<Seq<char>>) -> Result<OperationView, ErrorView> {
    let dry_run = any_arg(args, |arg: Seq<char>| dnf_declines(arg));
    let words = dnf_words(args);
    if words.len() == 0 {
        Ok(OperationView::Help)
    } else {
        match leading_command(Dialect::Dnf, words) {
            Err(error) => Err(error),
            Ok((command, rest)) => if command == "install"@ {
                install_operation(rest, dry_run)
            } else if command == "remove"@ || command == "erase"@ {
                remove_operation(rest, dry_run)
            } else if command == "upgrade"@ || command == "update"@ {
                Ok(upgrade_operation(rest, dry_run, false))
            } else if command == "check-update"@ || command == "makecache"@ {
                Ok(OperationView::CheckUpdates)
            } else if command == "search"@ {
                search_operation(rest, "search"@)
            } else if command == "info"@ {
                info_operation(rest, "info"@)
            } else if command == "list"@ {
                if any_arg(rest, |arg: Seq<char>| dnf_wants_updates(arg)) {
                    Ok(OperationView::CheckUpdates)
                } else if any_arg(rest, |arg: Seq<char>| dnf_wants_installed(arg)) || rest.len()
                    == 0 {
                    Ok(OperationView::List { query: None })
                } else {
                    Ok(OperationView::List { query: Some(rest) })
                }
            } else {
                Ok(OperationView::Help)
            },
        }
    }
}

/// Whether `word` is a command of the given frontend.
fn is_command_word(dialect: Dialect, word: &str) -> (r: bool)
    ensures
        r == is_command(dialect, word@),
{
    match dialect {
        Dialect::Native => same(word, "install") || same(word, "add") || same(word, "remove")
            || same(word, "uninstall") || same(word, "update") || same(word, "check") || same(
            word,
            "outdated",
        ) || same(word, "upgrade") || same(word, "search") || same(word, "info") || same(
            word,
            "show",
        ) || same(word, "list") || same(word, "help"),
        Dialect::Pacman => false,
        Dialect::Apt => same(word, "update") || same(word, "upgrade") || same(word, "full-upgrade")
            || same(word, "dist-upgrade") || same(word, "install") || same(word, "remove") || same(
            word,
            "purge",
        ) || same(word, "search") || same(word, "show") || same(word, "list") || same(word, "help"),
        Dialect::Dnf => same(word, "install") || same(word, "remove") || same(word, "erase")
            || same(word, "upgrade") || same(word, "update") || same(word, "check-update") || same(
            word,
            "makecache",
        ) || same(word, "search") || same(word, "info") || same(word, "list") || same(word, "help"),
    }
}

/// Locate the first recognised command word, allowing flags before it
/// (`apt -y install foo`).
fn split_leading_command<'a>(args: &'a [String], dialect: Dialect) -> (r: Result<
    (&'a str, &'a [String]),
    Error,
>)
    ensures
        (match r {
            Ok(pair) => Ok((pair.0@, texts(pair.1@))),
            Err(error) => Err(error@),
        }) == leading_command(dialect, texts(args@)),
{
    let ghost all = texts(args@);
    assert(all.skip(0) =~= all);
    let mut index: usize = 0;
    while index < args.len()
        invariant
            index <= args@.len(),
            all == texts(args@),
            first_command(dialect, all) == first_command(dialect, all.skip(index as int)),
        decreases args@.len() - index,
    {
        assert(all.skip(index as int).skip(1) =~= all.skip(index + 1));
        if is_command_word(dialect, args[index].as_str()) {
            let rest = vstd::slice::slice_subrange(args, index + 1, args.len());
            assert(texts(rest@) =~= all.skip(index + 1));
            return Ok((args[index].as_str(), rest));
        }
        index = index + 1;
    }
    if args.len() == 0 {
        Ok(("help", args))
    } else {
        Err(Error::Usage(concat3("unknown command '", args[0].as_str(), "'")))
    }
}

/// The operation that a native command line stands for.
pub fn parse_native(args: &[String]) -> (r: Result<Operation, Error>)
    ensures
        result_view(r) == native_operation(texts(args@)),
{
    let (command, rest) = match split_leading_command(args, Dialect::Native) {
        Ok(found) => found,
        Err(error) => return Err(error),
    };
    if same(command, "install") || same(command, "add") {
        install_op(rest, false)
    } else if same(command, "remove") || same(command, "uninstall") {
        remove_op(rest, false)
    } else if same(command, "update") || same(command, "check") || same(command, "outdated") {
        Ok(Operation::CheckUpdates)
    } else if same(command, "upgrade") {
        Ok(upgrade_op(rest, false, false))
    } else if same(command, "search") {
        search_op(rest, "search")
    } else if same(command, "info") || same(command, "show") {
        info_op(rest, "info")
    } else if same(command, "list") {
        Ok(Operation::List { query: None })
    } else {
        Ok(Operation::Help)
    }
}

proof fn lemma_any_next(args: Seq<Seq<char>>, i: int, property: spec_fn(Seq<char>) -> bool)
    requires
        0 <= i < args.len(),
    ensures
        any_arg(args.take(i + 1), property) == (any_arg(args.take(i), property) || property(
            args[i],
        )),
{
    let next = args.take(i + 1);
    let now = args.take(i);
    if any_arg(now, property) {
        let j = choose|j: int| 0 <= j < now.len() && property(#[trigger] now[j]);
        assert(next[j] == now[j]);
    }
    if property(args[i]) {
        assert(property(next[i]));
    }
    if any_arg(next, property) && !property(args[i]) {
        let j = choose|j: int| 0 <= j < next.len() && property(#[trigger] next[j]);
        assert(now[j] == next[j]);
    }
}

/// The operation that an apt command line stands for.
pub fn parse_apt(args: &[String]) -> (r: Result<Operation, Error>)
    ensures
        result_view(r) == apt_operation(texts(args@)),
{
    let mut dry_run = false;
    let mut installed = false;
    let mut upgradable = false;
    let mut filtered: Vec<String> = Vec::new();
    let ghost all = texts(args@);
    let ghost keep = |arg: Seq<char>| !is_apt_flag(arg);
    let ghost simulates = |arg: Seq<char>| apt_simulates(arg);
    let ghost wants_upgradable = |arg: Seq<char>| apt_upgradable(arg);
    assert(texts(filtered@) =~= all.take(0).filter(keep)) by {
        reveal(Seq::filter);
    }
    let mut i: usize = 0;
    while i < args.len()
        invariant
            i <= args@.len(),
            all == texts(args@),
            keep == (|arg: Seq<char>| !is_apt_flag(arg)),
            simulates == (|arg: Seq<char>| apt_simulates(arg)),
            wants_upgradable == (|arg: Seq<char>| apt_upgradable(arg)),
            dry_run == any_arg(all.take(i as int), simulates),
            installed == all.take(i as int).contains("--installed"@),
            upgradable == any_arg(all.take(i as int), wants_upgradable),
            texts(filtered@) == all.take(i as int).filter(keep),
        decreases args@.len() - i,
    {
        let arg = args[i].as_str();
        let ghost before = filtered@;
        proof {
            assert(all.take(i + 1) =~= all.take(i as int).push(all[i as int]));
            all.take(i as int).lemma_filter_push(all[i as int], keep);
            lemma_any_next(all, i as int, simulates);
            lemma_any_next(all, i as int, wants_upgradable);
            lemma_contains_next(all, i as int, "--installed"@);
        }
        let is_simulate = same(arg, "-s") || same(arg, "--simulate") || same(arg, "--just-print")
            || same(arg, "--recon") || same(arg, "--dry-run");
        let is_yes = same(arg, "-y") || same(arg, "--yes") || same(arg, "--assume-yes");
        let is_installed = same(arg, "--installed");
        let is_upgradable = same(arg, "--upgradable") || same(arg, "--upgradeable");
        if is_simulate {
            dry_run = true;
        }
        if is_installed {
            installed = true;
        }
        if is_upgradable {
            upgradable = true;
        }
        if !is_simulate && !is_yes && !is_installed && !is_upgradable {
            filtered.push(args[i].clone());
            assert(texts(filtered@) =~= texts(before).push(all[i as int]));
        }
        i = i + 1;
    }
    assert(all.take(i as int) =~= all);

    if filtered.len() == 0 {
        return Ok(Operation::Help);
    }
    let (command, rest) = match split_leading_command(filtered.as_slice(), Dialect::Apt) {
        Ok(found) => found,
        Err(error) => return Err(error),
    };

    if same(command, "update") {
        Ok(Operation::CheckUpdates)
    } else if same(command, "upgrade") || same(command, "full-upgrade") || same(
        command,
        "dist-upgrade",
    ) {
        Ok(upgrade_op(rest, dry_run, false))
    } else if same(command, "install") {
        install_op(rest, dry_run)
    } else if same(command, "remove") || same(command, "purge") {
        remove_op(rest, dry_run)
    } else if same(command, "search") {
        search_op(rest, "search")
    } else if same(command, "show") {
        info_op(rest, "show")
    } else if same(command, "list") {
        if upgradable {
            Ok(Operation::CheckUpdates)
        } else if installed || rest.len() == 0 {
            Ok(Operation::List { query: None })
        } else {
            Ok(Operation::List { query: Some(copy_strings(rest)) })
        }
    } else {
        Ok(Operation::Help)
    }
}

/// The words of a dnf command line, and whether it is a simulation.
fn dnf_filter(args: &[String]) -> (r: (bool, Vec<String>))
    ensures
        r.0 == any_arg(texts(args@), |arg: Seq<char>| dnf_declines(arg)),
        texts(r.1@) == dnf_words(texts(args@)),
{
    let mut dry_run = false;
    let mut filtered: Vec<String> = Vec::new();
    let ghost all = texts(args@);
    let ghost keep = |arg: Seq<char>| !dnf_agrees(arg) && !dnf_declines(arg);
    let ghost word = |arg: Seq<char>| dnf_word(arg);
    let ghost declines = |arg: Seq<char>| dnf_declines(arg);
    assert(texts(filtered@) =~= all.take(0).filter(keep).map_values(word)) by {
        reveal(Seq::filter);
    }
    let mut i: usize = 0;
    while i < args.len()
        invariant
            i <= args@.len(),
            all == texts(args@),
            keep == (|arg: Seq<char>| !dnf_agrees(arg) && !dnf_declines(arg)),
            word == (|arg: Seq<char>| dnf_word(arg)),
            declines == (|arg: Seq<char>| dnf_declines(arg)),
            dry_run == any_arg(all.take(i as int), declines),
            texts(filtered@) == all.take(i as int).filter(keep).map_values(word),
        decreases args@.len() - i,
    {
        let arg = args[i].as_str();
        let ghost before = filtered@;
        let ghost kept = all.take(i as int).filter(keep);
        proof {
            assert(all.take(i + 1) =~= all.take(i as int).push(all[i as int]));
            all.take(i as int).lemma_filter_push(all[i as int], keep);
            assert(kept.push(all[i as int]).map_values(word) =~= kept.map_values(word).push(
                dnf_word(all[i as int]),
            ));
            lemma_any_next(all, i as int, declines);
        }
        let is_yes = same(arg, "-y") || same(arg, "--assumeyes") || same(arg, "--assume-yes");
        let is_no = same(arg, "-n") || same(arg, "--assumeno");
        if is_no {
            dry_run = true;
        }
        if !is_yes && !is_no {
            let next = if same(arg, "--installed") {
                "installed".to_string()
            } else if same(arg, "--updates") || same(arg, "--upgradable") || same(
                arg,
                "--upgradeable",
            ) {
                "updates".to_string()
            } else {
                args[i].clone()
            };
            filtered.push(next);
            assert(texts(filtered@) =~= texts(before).push(next@));
        }
        i = i + 1;
    }
    assert(all.take(i as int) =~= all);
    (dry_run, filtered)
}

/// The operation that a dnf command line stands for.
pub fn parse_dnf(args: &[String]) -> (r: Result<Operation, Error>)
    ensures
        result_view(r) == dnf_operation(texts(args@)),
{
    let (dry_run, filtered) = dnf_filter(args);

    if filtered.len() == 0 {
        return Ok(Operation::Help);
    }
    let (command, rest) = match split_leading_command(filtered.as_slice(), Dialect::Dnf) {
        Ok(found) => found,
        Err(error) => return Err(error),
    };

    if same(command, "install") {
        install_op(rest, dry_run)
    } else if same(command, "remove") || same(command, "erase") {
        remove_op(rest, dry_run)
    } else if same(command, "upgrade") || same(command, "update") {
        Ok(upgrade_op(rest, dry_run, false))
    } else if same(command, "check-update") || same(command, "makecache") {
        Ok(Operation::CheckUpdates)
    } else if same(command, "search") {
        search_op(rest, "search")
    } else if same(command, "info") {
        info_op(rest, "info")
    } else if same(command, "list") {
        let (updates, installed) = dnf_list_words(rest);
        if updates {
            Ok(Operation::CheckUpdates)
        } else if installed || rest.len() == 0 {
            Ok(Operation::List { query: None })
        } else {
            Ok(Operation::List { query: Some(copy_strings(rest)) })
        }
    } else {
        Ok(Operation::Help)
    }
}

/// Whether the words after `dnf list` ask for updates, and whether they ask for
/// installed packages.
fn dnf_list_words(rest: &[String]) -> (r: (bool, bool))
    ensures
        r.0 == any_arg(texts(rest@), |arg: Seq<char>| dnf_wants_updates(arg)),
        r.1 == any_arg(texts(rest@), |arg: Seq<char>| dnf_wants_installed(arg)),
{
    let mut updates = false;
    let mut installed = false;
    let ghost all = texts(rest@);
    let ghost wants_updates = |arg: Seq<char>| dnf_wants_updates(arg);
    let ghost wants_installed = |arg: Seq<char>| dnf_wants_installed(arg);
    let mut i: usize = 0;
    while i < rest.len()
        invariant
            i <= rest@.len(),
            all == texts(rest@),
            wants_updates == (|arg: Seq<char>| dnf_wants_updates(arg)),
            wants_installed == (|arg: Seq<char>| dnf_wants_installed(arg)),
            updates == any_arg(all.take(i as int), wants_updates),
            installed == any_arg(all.take(i as int), wants_installed),
        decreases rest@.len() - i,
    {
        let arg = rest[i].as_str();
        proof {
            lemma_any_next(all, i as int, wants_updates);
            lemma_any_next(all, i as int, wants_installed);
        }
        if same(arg, "updates") || same(arg, "upgrades") || same(arg, "--updates") || same(
            arg,
            "--upgradable",
        ) {
            updates = true;
        }
        if same(arg, "installed") || same(arg, "--installed") {
            installed = true;
        }
        i = i + 1;
    }
    assert(all.take(i as int) =~= all);
    (updates, installed)
}

/// `--help` and `-h` ask for help wherever they stand, and so does an empty
/// line, with every frontend.
pub proof fn help_is_always_understood(dialect: Dialect, args: Seq<Seq<char>>)
    requires
        args.contains("--help"@) || args.contains("-h"@) || args.len() == 0,
    ensures
        parsed(dialect, args) == Ok::<OperationView, ErrorView>(OperationView::Help),
{
    if args.len() == 0 {
        reveal(Seq::filter);
    }
}

/// `--dry-run` turns everything that would change an installation into a dry
/// run, wherever it stands and with every frontend.
pub proof fn dry_run_is_always_respected(dialect: Dialect, args: Seq<Seq<char>>)
    requires
        args.contains("--dry-run"@),
    ensures
        parsed(dialect, args) matches Ok(operation) ==> only_plans(operation),
{
}

/// Whether an operation leaves every installation as it is, or is a dry run.
pub open spec fn only_plans(operation: OperationView) -> bool {
    match operation {
        OperationView::Install { dry_run, .. } => dry_run,
        OperationView::Remove { dry_run, .. } => dry_run,
        OperationView::Upgrade { dry_run, .. } => dry_run,
        _ => true,
    }
}

/// apt's `-s` and `--simulate` and dnf's `-n` and `--assumeno` make an operation
/// a dry run, wherever they stand.
pub proof fn simulations_only_plan(args: Seq<Seq<char>>)
    ensures
        (args.contains("-s"@) || args.contains("--simulate"@)) && apt_operation(args) is Ok
            ==> only_plans(apt_operation(args)->Ok_0),
        (args.contains("-n"@) || args.contains("--assumeno"@)) && dnf_operation(args) is Ok
            ==> only_plans(dnf_operation(args)->Ok_0),
{
    let simulates = |arg: Seq<char>| apt_simulates(arg);
    let declines = |arg: Seq<char>| dnf_declines(arg);
    if args.contains("-s"@) || args.contains("--simulate"@) {
        let i = choose|i: int|
            0 <= i < args.len() && (args[i] == "-s"@ || args[i] == "--simulate"@);
        assert(simulates(args[i]));
        assert(any_arg(args, simulates));
    }
    if args.contains("-n"@) || args.contains("--assumeno"@) {
        let i = choose|i: int|
            0 <= i < args.len() && (args[i] == "-n"@ || args[i] == "--assumeno"@);
        assert(declines(args[i]));
        assert(any_arg(args, declines));
    }
}

/// `operation` as a dry run, where `dry_run` says so.
pub open spec fn planned_only(operation: OperationView, dry_run: bool) -> OperationView {
    with_globals(operation, Globals { dry_run, locked: false, help: false })
}

/// Whether `arg` is one of apt's own flags that leave an operation as it is,
/// but for making it a dry run.
pub open spec fn apt_aside(arg: Seq<char>) -> bool {
    apt_agrees(arg) || (apt_simulates(arg) && arg != "--dry-run"@)
}

/// apt's `-y`, `--yes` and `--assume-yes` change nothing, and `-s`, `--simulate`,
/// `--just-print` and `--recon` make an operation a dry run and change nothing
/// else, wherever they stand: without them a line means the same but for that,
/// and fails with the same error.
pub proof fn apt_flags_only_plan(args: Seq<Seq<char>>)
    ensures
        apt_operation(args) == (match apt_operation(
            args.filter(|arg: Seq<char>| !apt_aside(arg)),
        ) {
            Ok(operation) => Ok(
                planned_only(
                    operation,
                    any_arg(args, |arg: Seq<char>| apt_simulates(arg) && arg != "--dry-run"@),
                ),
            ),
            Err(error) => Err(error),
        }),
{
    let keep = |arg: Seq<char>| !apt_aside(arg);
    let words = |arg: Seq<char>| !is_apt_flag(arg);
    let simulates = |arg: Seq<char>| apt_simulates(arg);
    let aside = |arg: Seq<char>| apt_simulates(arg) && arg != "--dry-run"@;
    let upgradable = |arg: Seq<char>| apt_upgradable(arg);
    let installed = |arg: Seq<char>| arg == "--installed"@;
    let dry = |arg: Seq<char>| arg == "--dry-run"@;
    let rest = args.filter(keep);
    lemma_apt_flags_differ();
    lemma_filter_twice(args, keep, words);
    lemma_any_kept(args, keep, upgradable);
    lemma_any_kept(args, keep, installed);
    lemma_any_kept(args, keep, dry);
    lemma_contains_any(args, "--installed"@);
    lemma_contains_any(rest, "--installed"@);
    assert(any_arg(args, simulates) == (any_arg(args, aside) || any_arg(args, dry))) by {
        if any_arg(args, simulates) {
            let i = choose|i: int| 0 <= i < args.len() && simulates(#[trigger] args[i]);
            assert(aside(args[i]) || dry(args[i]));
        }
        if any_arg(args, aside) {
            let i = choose|i: int| 0 <= i < args.len() && aside(#[trigger] args[i]);
            assert(simulates(args[i]));
        }
        if any_arg(args, dry) {
            let i = choose|i: int| 0 <= i < args.len() && dry(#[trigger] args[i]);
            assert(simulates(args[i]));
        }
    }
    assert(any_arg(rest, simulates) == any_arg(rest, dry)) by {
        if any_arg(rest, simulates) {
            let i = choose|i: int| 0 <= i < rest.len() && simulates(#[trigger] rest[i]);
            args.lemma_filter_pred(keep, i);
            assert(dry(rest[i]));
        }
        if any_arg(rest, dry) {
            let i = choose|i: int| 0 <= i < rest.len() && dry(#[trigger] rest[i]);
            assert(simulates(rest[i]));
        }
    }
}

/// dnf's `-y`, `--assumeyes` and `--assume-yes` change nothing, and `-n` and
/// `--assumeno` make an operation a dry run and change nothing else, wherever
/// they stand.
pub proof fn dnf_flags_only_plan(args: Seq<Seq<char>>)
    ensures
        dnf_operation(args) == (match dnf_operation(
            args.filter(|arg: Seq<char>| !dnf_agrees(arg) && !dnf_declines(arg)),
        ) {
            Ok(operation) => Ok(
                planned_only(operation, any_arg(args, |arg: Seq<char>| dnf_declines(arg))),
            ),
            Err(error) => Err(error),
        }),
{
    let keep = |arg: Seq<char>| !dnf_agrees(arg) && !dnf_declines(arg);
    let declines = |arg: Seq<char>| dnf_declines(arg);
    let rest = args.filter(keep);
    lemma_filter_twice(args, keep, keep);
    if any_arg(rest, declines) {
        let i = choose|i: int| 0 <= i < rest.len() && declines(#[trigger] rest[i]);
        args.lemma_filter_pred(keep, i);
    }
}

/// No flag that restricts a list, and not `--dry-run`, is one of apt's other
/// flags.
proof fn lemma_apt_flags_differ()
    ensures
        !apt_aside("--installed"@),
        !apt_aside("--dry-run"@),
        forall|arg: Seq<char>| #[trigger] apt_upgradable(arg) ==> !apt_aside(arg),
{
    reveal_strlit("-y");
    reveal_strlit("--yes");
    reveal_strlit("--assume-yes");
    reveal_strlit("-s");
    reveal_strlit("--simulate");
    reveal_strlit("--just-print");
    reveal_strlit("--recon");
    reveal_strlit("--dry-run");
    reveal_strlit("--installed");
    reveal_strlit("--upgradable");
    reveal_strlit("--upgradeable");
    assert("-y"@.len() == 2 && "-s"@.len() == 2);
    assert("--yes"@.len() == 5 && "--assume-yes"@.len() == 12);
    assert("--simulate"@.len() == 10 && "--just-print"@.len() == 12 && "--recon"@.len() == 7);
    assert("--dry-run"@.len() == 9 && "--installed"@.len() == 11);
    assert("--upgradable"@.len() == 12 && "--upgradeable"@.len() == 13);
    assert("--assume-yes"@[2] == 'a');
    assert("--just-print"@[2] == 'j');
    assert("--upgradable"@[2] == 'u');
}

/// What is kept by the second choice is kept by both, where the second keeps
/// nothing that the first drops.
proof fn lemma_filter_twice(
    args: Seq<Seq<char>>,
    first: spec_fn(Seq<char>) -> bool,
    second: spec_fn(Seq<char>) -> bool,
)
    requires
        forall|arg: Seq<char>| #[trigger] second(arg) ==> first(arg),
    ensures
        args.filter(first).filter(second) == args.filter(second),
    decreases args.len(),
{
    reveal(Seq::filter);
    if args.len() > 0 {
        let before = args.drop_last();
        lemma_filter_twice(before, first, second);
        assert(args =~= before.push(args.last()));
        before.filter(first).lemma_filter_push(args.last(), second);
        before.lemma_filter_push(args.last(), second);
        before.lemma_filter_push(args.last(), first);
    }
}

/// An argument with a property that is always kept is among the kept ones.
proof fn lemma_any_kept(
    args: Seq<Seq<char>>,
    keep: spec_fn(Seq<char>) -> bool,
    property: spec_fn(Seq<char>) -> bool,
)
    requires
        forall|arg: Seq<char>| #[trigger] property(arg) ==> keep(arg),
    ensures
        any_arg(args.filter(keep), property) == any_arg(args, property),
{
    let kept = args.filter(keep);
    if any_arg(args, property) {
        let i = choose|i: int| 0 <= i < args.len() && property(#[trigger] args[i]);
        args.lemma_filter_contains(keep, i);
        let j = choose|j: int| 0 <= j < kept.len() && kept[j] == args[i];
        assert(property(kept[j]));
    }
    if any_arg(kept, property) {
        let i = choose|i: int| 0 <= i < kept.len() && property(#[trigger] kept[i]);
        args.lemma_filter_contains_rev(keep, kept[i]);
        let j = choose|j: int| 0 <= j < args.len() && args[j] == kept[i];
        assert(property(args[j]));
    }
}

/// Whether `alias` is another word for the native command `command`.
pub open spec fn is_alias(alias: Seq<char>, command: Seq<char>) -> bool {
    ||| alias == "add"@ && command == "install"@
    ||| alias == "uninstall"@ && command == "remove"@
    ||| alias == "check"@ && command == "update"@
    ||| alias == "outdated"@ && command == "update"@
    ||| alias == "show"@ && command == "info"@
}

/// An alias means the same as its command: the same operation, or the same usage
/// error. The aliases of `update` always check for updates.
pub proof fn aliases_mean_their_commands(
    alias: Seq<char>,
    command: Seq<char>,
    rest: Seq<Seq<char>>,
)
    requires
        is_alias(alias, command),
    ensures
        native_operation(seq![alias] + rest) == native_operation(seq![command] + rest),
        native_operation(seq![alias] + rest) matches Err(error) ==> error is Usage,
        command == "update"@ ==> native_operation(seq![alias] + rest) == Ok::<
            OperationView,
            ErrorView,
        >(OperationView::CheckUpdates),
{
    reveal_strlit("install");
    reveal_strlit("add");
    reveal_strlit("remove");
    reveal_strlit("uninstall");
    reveal_strlit("update");
    reveal_strlit("check");
    reveal_strlit("outdated");
    reveal_strlit("upgrade");
    reveal_strlit("search");
    reveal_strlit("info");
    reveal_strlit("show");
    assert((seq![alias] + rest)[0] == alias);
    assert((seq![command] + rest)[0] == command);
    assert((seq![alias] + rest).skip(1) =~= rest);
    assert((seq![command] + rest).skip(1) =~= rest);
    assert(first_command(Dialect::Native, seq![alias] + rest) == Some((alias, rest)));
    assert(first_command(Dialect::Native, seq![command] + rest) == Some((command, rest)));
    assert("remove"@[0] == 'r' && "update"@[0] == 'u' && "search"@[0] == 's');
    assert("info"@[0] == 'i' && "show"@[0] == 's');
    lemma_split_error(rest);
}

/// Splitting arguments can only fail with a usage error.
proof fn lemma_split_error(args: Seq<Seq<char>>)
    ensures
        split_args(args) matches Err(error) ==> error is Usage,
    decreases args.len(),
{
    if args.len() > 0 {
        lemma_split_error(args.skip(1));
        if args.len() > 1 {
            lemma_split_error(args.skip(2));
        }
    }
}

/// The arguments without `--dry-run` and `--locked`, in order.
pub open spec fn without_settings(args: Seq<Seq<char>>) -> Seq<Seq<char>> {
    args.filter(|arg: Seq<char>| arg != "--dry-run"@ && arg != "--locked"@)
}

/// `--dry-run` and `--locked` change nothing but what they are for, wherever they
/// stand and with every frontend. Without them a line fails with the same error,
/// or means the same but for this: `--dry-run` makes an installation, a removal
/// or an upgrade a dry run, `--locked` makes an upgrade locked, and it stands in
/// front of the arguments of an installation, which do not hold it otherwise.
pub proof fn settings_change_nothing_else(dialect: Dialect, args: Seq<Seq<char>>)
    ensures
        parsed(dialect, args) == (match parsed(dialect, without_settings(args)) {
            Ok(operation) => Ok(
                match operation {
                    OperationView::Install { packages, cargo_args, dry_run } =>
                        OperationView::Install {
                        packages,
                        cargo_args: if args.contains("--locked"@) {
                            seq!["--locked"@] + cargo_args
                        } else {
                            cargo_args
                        },
                        dry_run: dry_run || args.contains("--dry-run"@),
                    },
                    OperationView::Remove { packages, cargo_args, dry_run } =>
                        OperationView::Remove {
                        packages,
                        cargo_args,
                        dry_run: dry_run || args.contains("--dry-run"@),
                    },
                    OperationView::Upgrade { dry_run, locked, also_install, install_args } =>
                        OperationView::Upgrade {
                        dry_run: dry_run || args.contains("--dry-run"@),
                        locked: locked || args.contains("--locked"@),
                        also_install,
                        install_args,
                    },
                    other => other,
                },
            ),
            Err(error) => Err(error),
        }),
        parsed(dialect, without_settings(args)) matches Ok(
            OperationView::Install { cargo_args, .. },
        ) ==> !cargo_args.contains("--locked"@),
{
    let keep = |arg: Seq<char>| arg != "--dry-run"@ && arg != "--locked"@;
    let rest = without_settings(args);
    let words = without_globals(args);
    reveal_strlit("--dry-run");
    reveal_strlit("--locked");
    reveal_strlit("--help");
    reveal_strlit("-h");
    assert("--help"@.len() == 6 && "-h"@.len() == 2);
    assert("--dry-run"@.len() == 9 && "--locked"@.len() == 8);
    lemma_filter_twice(args, keep, |arg: Seq<char>| !is_global(arg));
    assert(without_globals(rest) == words);
    lemma_any_kept(args, keep, |arg: Seq<char>| arg == "--help"@);
    lemma_any_kept(args, keep, |arg: Seq<char>| arg == "-h"@);
    lemma_contains_any(args, "--help"@);
    lemma_contains_any(rest, "--help"@);
    lemma_contains_any(args, "-h"@);
    lemma_contains_any(rest, "-h"@);
    assert forall|word: Seq<char>| !keep(word) implies !#[trigger] rest.contains(word) by {
        if rest.contains(word) {
            let i = choose|i: int| 0 <= i < rest.len() && rest[i] == word;
            args.lemma_filter_pred(keep, i);
        }
    }
    assert(!keep("--dry-run"@) && !keep("--locked"@));
    assert(!words.contains("--locked"@)) by {
        if words.contains("--locked"@) {
            let i = choose|i: int| 0 <= i < words.len() && words[i] == "--locked"@;
            args.lemma_filter_pred(|arg: Seq<char>| !is_global(arg), i);
        }
    }
    lemma_installs_only_words(dialect, words, "--locked"@);
}

/// The flags of an installation stand among the arguments.
proof fn lemma_installs_only_words(dialect: Dialect, args: Seq<Seq<char>>, word: Seq<char>)
    requires
        !args.contains(word),
        word == "--locked"@,
    ensures
        operation_of(dialect, args) matches Ok(OperationView::Install { cargo_args, .. })
            ==> !cargo_args.contains(word),
{
    match dialect {
        Dialect::Native => {
            lemma_command_lacks(dialect, args, word);
            if let Some((_, rest)) = first_command(dialect, args) {
                lemma_split_lacks(rest, word);
            }
        },
        Dialect::Pacman => {
            let none = Seq::<Seq<char>>::empty();
            lemma_scan_lacks(no_flags(), none, args, word);
            if let Scan::Done { positionals, .. } = scan(no_flags(), none, args) {
                lemma_split_lacks(positionals, word);
            }
        },
        Dialect::Apt => {
            let keep = |arg: Seq<char>| !is_apt_flag(arg);
            let words = args.filter(keep);
            if words.contains(word) {
                args.lemma_filter_contains_rev(keep, word);
            }
            lemma_command_lacks(dialect, words, word);
            if let Some((_, rest)) = first_command(dialect, words) {
                lemma_split_lacks(rest, word);
            }
        },
        Dialect::Dnf => {
            let keep = |arg: Seq<char>| !dnf_agrees(arg) && !dnf_declines(arg);
            let kept = args.filter(keep);
            let words = dnf_words(args);
            reveal_strlit("--locked");
            reveal_strlit("installed");
            reveal_strlit("updates");
            assert("installed"@.len() == 9 && "updates"@.len() == 7 && "--locked"@.len() == 8);
            if words.contains(word) {
                let i = choose|i: int| 0 <= i < words.len() && words[i] == word;
                assert(dnf_word(kept[i]) == word);
                assert(kept[i] == word);
                args.lemma_filter_contains_rev(keep, word);
            }
            lemma_command_lacks(dialect, words, word);
            if let Some((_, rest)) = first_command(dialect, words) {
                lemma_split_lacks(rest, word);
            }
        },
    }
}

proof fn lemma_command_lacks(dialect: Dialect, args: Seq<Seq<char>>, word: Seq<char>)
    requires
        !args.contains(word),
    ensures
        first_command(dialect, args) matches Some((_, rest)) ==> !rest.contains(word),
    decreases args.len(),
{
    if args.len() > 0 {
        lemma_tail_lacks(args, 1, word);
        lemma_command_lacks(dialect, args.skip(1), word);
    }
}

proof fn lemma_tail_lacks(args: Seq<Seq<char>>, n: int, word: Seq<char>)
    requires
        0 <= n <= args.len(),
        !args.contains(word),
    ensures
        !args.skip(n).contains(word),
{
    if args.skip(n).contains(word) {
        let i = choose|i: int| 0 <= i < args.skip(n).len() && args.skip(n)[i] == word;
        assert(args[i + n] == word);
    }
}

proof fn lemma_split_lacks(args: Seq<Seq<char>>, word: Seq<char>)
    requires
        !args.contains(word),
    ensures
        split_args(args) matches Ok(pair) ==> !pair.1.contains(word),
    decreases args.len(),
{
    if args.len() > 0 {
        assert(args[0] != word);
        lemma_tail_lacks(args, 1, word);
        lemma_split_lacks(args.skip(1), word);
        if args.len() > 1 {
            assert(args[1] != word);
            lemma_tail_lacks(args, 2, word);
            lemma_split_lacks(args.skip(2), word);
        }
    }
}

proof fn lemma_scan_lacks(
    flags: PacmanFlags,
    positionals: Seq<Seq<char>>,
    args: Seq<Seq<char>>,
    word: Seq<char>,
)
    requires
        !positionals.contains(word),
        !args.contains(word),
    ensures
        scan(flags, positionals, args) matches Scan::Done { positionals, .. }
            ==> !positionals.contains(word),
    decreases args.len(),
{
    if args.len() > 0 {
        assert(args[0] != word);
        lemma_tail_lacks(args, 1, word);
        lemma_cluster_keeps(flags, args[0].skip(1), positionals);
        if let Scan::Done { flags: next, positionals: more } = scan_arg(
            flags,
            positionals,
            args[0],
        ) {
            assert(more == positionals || more == positionals.push(args[0]));
            assert(!more.contains(word)) by {
                if more.contains(word) {
                    let i = choose|i: int| 0 <= i < more.len() && more[i] == word;
                    assert(positionals[i] == word);
                }
            }
            lemma_scan_lacks(next, more, args.skip(1), word);
        }
    }
}

proof fn lemma_cluster_keeps(
    flags: PacmanFlags,
    cluster: Seq<char>,
    positionals: Seq<Seq<char>>,
)
    ensures
        scan_cluster(flags, cluster, positionals) matches Scan::Done { positionals: kept, .. }
            ==> kept == positionals,
    decreases cluster.len(),
{
    if cluster.len() > 0 {
        if let Effect::Flags(next) = letter_effect(flags, cluster[0]) {
            lemma_cluster_keeps(next, cluster.skip(1), positionals);
        }
    }
}

/// A global flag may stand anywhere: in front of the other arguments it means
/// the same.
pub proof fn global_flags_may_stand_anywhere(
    dialect: Dialect,
    before: Seq<Seq<char>>,
    flag: Seq<char>,
    after: Seq<Seq<char>>,
)
    requires
        is_global(flag),
    ensures
        parsed(dialect, before + seq![flag] + after) == parsed(
            dialect,
            seq![flag] + before + after,
        ),
{
    let keep = |arg: Seq<char>| !is_global(arg);
    let one = before + seq![flag] + after;
    let two = seq![flag] + before + after;
    let none = Seq::<Seq<char>>::empty();
    lemma_dropped(before, flag, after, keep);
    lemma_dropped(none, flag, before + after, keep);
    assert(none + seq![flag] + (before + after) =~= two);
    assert(none + (before + after) =~= before + after);
    assert(without_globals(one) == without_globals(two));
    lemma_same_words(before, flag, after, "--help"@);
    lemma_same_words(before, flag, after, "-h"@);
    lemma_same_words(before, flag, after, "--dry-run"@);
    lemma_same_words(before, flag, after, "--locked"@);
}

proof fn lemma_same_words(
    before: Seq<Seq<char>>,
    flag: Seq<char>,
    after: Seq<Seq<char>>,
    word: Seq<char>,
)
    ensures
        (before + seq![flag] + after).contains(word) == (seq![flag] + before + after).contains(
            word,
        ),
{
    let one = before + seq![flag] + after;
    let two = seq![flag] + before + after;
    let n = before.len() as int;
    if one.contains(word) {
        let i = choose|i: int| 0 <= i < one.len() && one[i] == word;
        let j = if i < n {
            i + 1
        } else if i == n {
            0
        } else {
            i
        };
        assert(two[j] == word);
    }
    if two.contains(word) {
        let i = choose|i: int| 0 <= i < two.len() && two[i] == word;
        let j = if i == 0 {
            n
        } else if i <= n {
            i - 1
        } else {
            i
        };
        assert(one[j] == word);
    }
}

/// apt's and dnf's `-y` is accepted and ignored wherever it stands.
pub proof fn yes_is_ignored(before: Seq<Seq<char>>, after: Seq<Seq<char>>)
    ensures
        apt_operation(before + seq!["-y"@] + after) == apt_operation(before + after),
        dnf_operation(before + seq!["-y"@] + after) == dnf_operation(before + after),
{
    let with = before + seq!["-y"@] + after;
    let without = before + after;
    reveal_strlit("-y");
    reveal_strlit("-s");
    reveal_strlit("-n");
    reveal_strlit("--simulate");
    reveal_strlit("--just-print");
    reveal_strlit("--recon");
    reveal_strlit("--dry-run");
    reveal_strlit("--installed");
    reveal_strlit("--upgradable");
    reveal_strlit("--upgradeable");
    reveal_strlit("--assumeno");
    assert("-y"@[1] == 'y' && "-s"@[1] == 's' && "-n"@[1] == 'n');
    let apt_keep = |arg: Seq<char>| !is_apt_flag(arg);
    let dnf_keep = |arg: Seq<char>| !dnf_agrees(arg) && !dnf_declines(arg);
    lemma_dropped(before, "-y"@, after, apt_keep);
    lemma_dropped(before, "-y"@, after, dnf_keep);
    lemma_not_any(before, "-y"@, after, |arg: Seq<char>| apt_simulates(arg));
    lemma_not_any(before, "-y"@, after, |arg: Seq<char>| apt_upgradable(arg));
    lemma_not_any(before, "-y"@, after, |arg: Seq<char>| dnf_declines(arg));
    let installed = |arg: Seq<char>| arg == "--installed"@;
    lemma_not_any(before, "-y"@, after, installed);
    lemma_contains_any(with, "--installed"@);
    lemma_contains_any(without, "--installed"@);
}

pub(crate) proof fn lemma_contains_any(args: Seq<Seq<char>>, word: Seq<char>)
    ensures
        args.contains(word) == any_arg(args, |arg: Seq<char>| arg == word),
{
    let property = |arg: Seq<char>| arg == word;
    if args.contains(word) {
        let i = choose|i: int| 0 <= i < args.len() && args[i] == word;
        assert(property(args[i]));
    }
}

pub(crate) proof fn lemma_dropped(
    before: Seq<Seq<char>>,
    word: Seq<char>,
    after: Seq<Seq<char>>,
    keep: spec_fn(Seq<char>) -> bool,
)
    requires
        !keep(word),
    ensures
        (before + seq![word] + after).filter(keep) == (before + after).filter(keep),
{
    Seq::filter_distributes_over_add(before + seq![word], after, keep);
    Seq::filter_distributes_over_add(before, seq![word], keep);
    Seq::filter_distributes_over_add(before, after, keep);
    let none = Seq::<Seq<char>>::empty();
    assert(none.filter(keep) =~= none) by {
        reveal(Seq::filter);
    }
    none.lemma_filter_push(word, keep);
    assert(seq![word] =~= none.push(word));
    assert((before + seq![word] + after).filter(keep) =~= (before + after).filter(keep));
}

pub(crate) proof fn lemma_not_any(
    before: Seq<Seq<char>>,
    word: Seq<char>,
    after: Seq<Seq<char>>,
    property: spec_fn(Seq<char>) -> bool,
)
    requires
        !property(word),
    ensures
        any_arg(before + seq![word] + after, property) == any_arg(before + after, property),
{
    let with = before + seq![word] + after;
    let without = before + after;
    let n = before.len() as int;
    if any_arg(with, property) {
        let i = choose|i: int| 0 <= i < with.len() && property(#[trigger] with[i]);
        assert(i != n);
        let j = if i < n {
            i
        } else {
            i - 1
        };
        assert(property(without[j]));
    }
    if any_arg(without, property) {
        let i = choose|i: int| 0 <= i < without.len() && property(#[trigger] without[i]);
        let j = if i < n {
            i
        } else {
            i + 1
        };
        assert(property(with[j]));
    }
}

} // verus!
