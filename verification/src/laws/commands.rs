//! Laws of command lines: what each word and flag of a frontend is for.

use vstd::prelude::*;

use crate::arguments::{
    info_operation, install_operation, remove_operation, search_operation, split_args,
    upgrade_operation,
};
use crate::cli::{
    any_arg, apt_operation, dnf_operation, first_command, native_operation, parsed,
};
use crate::dialect::{
    dialect_named, preprocessed, selected_frontend, subcommand_of, Dialect,
};
use crate::error::ErrorView;
use crate::operation::OperationView;
use crate::pacman::pacman_operation;
use crate::text::joined;

verus! {

/// Whether the argument behind this flag of `cargo install` belongs to it.
pub open spec fn wants_a_value(flag: Seq<char>) -> bool {
    ||| flag == "--features"@
    ||| flag == "-F"@
    ||| flag == "--bin"@
    ||| flag == "--example"@
    ||| flag == "--profile"@
    ||| flag == "--target"@
    ||| flag == "--root"@
    ||| flag == "--git"@
    ||| flag == "--branch"@
    ||| flag == "--tag"@
    ||| flag == "--rev"@
    ||| flag == "--path"@
    ||| flag == "--registry"@
    ||| flag == "--index"@
    ||| flag == "--version"@
    ||| flag == "--vers"@
    ||| flag == "--color"@
    ||| flag == "--jobs"@
    ||| flag == "-j"@
    ||| flag == "-Z"@
}

/// Whether an argument is not a flag: it is a dash alone, or does not start with
/// one.
pub open spec fn is_word(arg: Seq<char>) -> bool {
    arg.len() == 0 || arg[0] != '-' || arg.len() == 1
}

/// Whether none of some arguments starts with a dash.
pub open spec fn all_words(args: Seq<Seq<char>>) -> bool {
    forall|i: int| 0 <= i < args.len() ==> (#[trigger] args[i]).len() == 0 || args[i][0] != '-'
}

/// A flag that wants a value stays next to it, in front of the flags that follow,
/// and takes nothing else along; at the end of a line its value is missing.
pub proof fn value_stays_with_its_flag(flag: Seq<char>, value: Seq<char>, rest: Seq<Seq<char>>)
    requires
        wants_a_value(flag),
    ensures
        split_args(seq![flag, value] + rest) == (match split_args(rest) {
            Ok((packages, flags)) => Ok((packages, seq![flag, value] + flags)),
            Err(error) => Err(error),
        }),
        split_args(seq![flag]) == Err::<(Seq<Seq<char>>, Seq<Seq<char>>), ErrorView>(
            ErrorView::Usage(flag + " requires a value"@),
        ),
{
    reveal_strlit("--features");
    reveal_strlit("-F");
    reveal_strlit("--bin");
    reveal_strlit("--example");
    reveal_strlit("--profile");
    reveal_strlit("--target");
    reveal_strlit("--root");
    reveal_strlit("--git");
    reveal_strlit("--branch");
    reveal_strlit("--tag");
    reveal_strlit("--rev");
    reveal_strlit("--path");
    reveal_strlit("--registry");
    reveal_strlit("--index");
    reveal_strlit("--version");
    reveal_strlit("--vers");
    reveal_strlit("--color");
    reveal_strlit("--jobs");
    reveal_strlit("-j");
    reveal_strlit("-Z");
    reveal_strlit("-");
    reveal_strlit("--");
    let args = seq![flag, value] + rest;
    assert(flag[0] == '-' && flag.len() > 1);
    assert(flag != "--"@) by {
        assert(flag.len() > 2 || flag[1] != '-');
    }
    assert(args[0] == flag && args[1] == value);
    assert(args.skip(2) =~= rest);
    if let Ok(pair) = split_args(rest) {
        assert(Seq::<Seq<char>>::empty() + pair.0 =~= pair.0);
    }
}

/// Any other flag stands alone among the flags.
pub proof fn other_flags_stand_alone(flag: Seq<char>, rest: Seq<Seq<char>>)
    requires
        !is_word(flag),
        flag != "--"@,
        !wants_a_value(flag),
    ensures
        split_args(seq![flag] + rest) == (match split_args(rest) {
            Ok((packages, flags)) => Ok((packages, seq![flag] + flags)),
            Err(error) => Err(error),
        }),
{
    reveal_strlit("-");
    let args = seq![flag] + rest;
    assert(flag.len() != "-"@.len());
    assert(args[0] == flag);
    assert(args.skip(1) =~= rest);
    if let Ok(pair) = split_args(rest) {
        assert(Seq::<Seq<char>>::empty() + pair.0 =~= pair.0);
    }
}

/// A word is a package, in front of those that follow; behind `--` everything is
/// one.
pub proof fn words_are_packages(word: Seq<char>, rest: Seq<Seq<char>>)
    requires
        is_word(word),
    ensures
        split_args(seq![word] + rest) == (match split_args(rest) {
            Ok((packages, flags)) => Ok((seq![word] + packages, flags)),
            Err(error) => Err(error),
        }),
        split_args(seq!["--"@] + rest) == Ok::<(Seq<Seq<char>>, Seq<Seq<char>>), ErrorView>(
            (rest, Seq::empty()),
        ),
        split_args(Seq::empty()) == Ok::<(Seq<Seq<char>>, Seq<Seq<char>>), ErrorView>(
            (Seq::empty(), Seq::empty()),
        ),
{
    reveal_strlit("-");
    reveal_strlit("--");
    let args = seq![word] + rest;
    assert("--"@[0] == '-' && "--"@.len() == 2);
    if word.len() == 1 && word[0] == '-' {
        assert(word =~= "-"@);
    }
    assert(args[0] == word);
    assert(args.skip(1) =~= rest);
    assert((seq!["--"@] + rest).skip(1) =~= rest);
    if let Ok(pair) = split_args(rest) {
        assert(Seq::<Seq<char>>::empty() + pair.1 =~= pair.1);
    }
}

/// Words alone are split into themselves and no flags.
pub proof fn lemma_words_alone(words: Seq<Seq<char>>)
    requires
        all_words(words),
    ensures
        split_args(words) == Ok::<(Seq<Seq<char>>, Seq<Seq<char>>), ErrorView>(
            (words, Seq::empty()),
        ),
    decreases words.len(),
{
    if words.len() == 0 {
        assert(words =~= Seq::<Seq<char>>::empty());
    } else {
        let rest = words.skip(1);
        assert forall|i: int| 0 <= i < rest.len() implies (#[trigger] rest[i]).len() == 0
            || rest[i][0] != '-' by {
            assert(rest[i] == words[i + 1]);
        }
        lemma_words_alone(rest);
        words_are_packages(words[0], rest);
        assert(seq![words[0]] + rest =~= words);
    }
}

/// Whether a flag says where the source of a crate is.
pub open spec fn says_where(flag: Seq<char>) -> bool {
    flag == "--git"@ || flag == "--path"@ || (exists|place: Seq<char>|
        flag == "--git="@ + place || flag == "--path="@ + place)
}

/// An installation names a package, or says where the source is; a removal names
/// a package. Both keep packages and flags as they were split, and anything else
/// is a usage error.
pub proof fn installing_needs_a_package_or_a_source(args: Seq<Seq<char>>, dry_run: bool)
    ensures
        match split_args(args) {
            Ok((packages, flags)) => {
                let named = packages.len() > 0;
                let sourced = exists|i: int| 0 <= i < flags.len() && says_where(#[trigger] flags[i]);
                &&& install_operation(args, dry_run) == if named || sourced {
                    Ok::<OperationView, ErrorView>(
                        OperationView::Install { packages, cargo_args: flags, dry_run },
                    )
                } else {
                    Err(ErrorView::Usage("no packages specified"@))
                }
                &&& remove_operation(args, dry_run) == if named {
                    Ok::<OperationView, ErrorView>(
                        OperationView::Remove { packages, cargo_args: flags, dry_run },
                    )
                } else {
                    Err(ErrorView::Usage("no packages specified"@))
                }
            },
            Err(error) => {
                &&& install_operation(args, dry_run) == Err::<OperationView, ErrorView>(error)
                &&& remove_operation(args, dry_run) == Err::<OperationView, ErrorView>(error)
            },
        },
{
    if let Ok((packages, flags)) = split_args(args) {
        assert forall|flag: Seq<char>| #[trigger]
            says_where(flag) == crate::arguments::is_source_flag(flag) by {
            if "--git="@.is_prefix_of(flag) {
                assert(flag =~= "--git="@ + flag.skip("--git="@.len() as int));
            }
            if "--path="@.is_prefix_of(flag) {
                assert(flag =~= "--path="@ + flag.skip("--path="@.len() as int));
            }
            if says_where(flag) && flag != "--git"@ && flag != "--path"@ {
                let place = choose|place: Seq<char>|
                    flag == "--git="@ + place || flag == "--path="@ + place;
                if flag == "--git="@ + place {
                    assert(flag.subrange(0, "--git="@.len() as int) =~= "--git="@);
                } else {
                    assert(flag.subrange(0, "--path="@.len() as int) =~= "--path="@);
                }
            }
        }
        let sourced = exists|i: int| 0 <= i < flags.len() && says_where(#[trigger] flags[i]);
        if sourced {
            let i = choose|i: int| 0 <= i < flags.len() && says_where(#[trigger] flags[i]);
            assert(crate::arguments::is_source_flag(flags[i]));
        }
        if crate::arguments::names_source(flags) {
            let i = choose|i: int|
                0 <= i < flags.len() && crate::arguments::is_source_flag(#[trigger] flags[i]);
            assert(says_where(flags[i]));
        }
    }
}

/// An upgrade installs the words among its arguments afterwards and forwards the
/// rest; a search is for the words, with a space between them; information is
/// shown for each word. A search or a question without a word is a usage error.
pub proof fn words_are_asked_for(args: Seq<Seq<char>>, command: Seq<char>, dry_run: bool, locked: bool)
    ensures
        ({
            let words = args.filter(|arg: Seq<char>| arg.len() == 0 || arg[0] != '-');
            let flags = args.filter(|arg: Seq<char>| arg.len() > 0 && arg[0] == '-');
            let missing = Err::<OperationView, ErrorView>(
                ErrorView::Usage(command + " requires an argument"@),
            );
            &&& upgrade_operation(args, dry_run, locked) == (OperationView::Upgrade {
                dry_run,
                locked,
                also_install: words,
                install_args: flags,
            })
            &&& search_operation(args, command) == if words.len() == 0 {
                missing
            } else {
                Ok(OperationView::Search(joined(words, " "@)))
            }
            &&& info_operation(args, command) == if words.len() == 0 {
                missing
            } else {
                Ok(OperationView::Info(words))
            }
        }),
{
    let plain = |arg: Seq<char>| !crate::arguments::dashed(arg);
    let word = |arg: Seq<char>| arg.len() == 0 || arg[0] != '-';
    let dash = |arg: Seq<char>| crate::arguments::dashed(arg);
    let flag = |arg: Seq<char>| arg.len() > 0 && arg[0] == '-';
    assert(plain =~= word);
    assert(dash =~= flag);
}

/// Whether `word` is a command of the native frontend.
pub open spec fn native_word(word: Seq<char>) -> bool {
    ||| word == "install"@
    ||| word == "add"@
    ||| word == "remove"@
    ||| word == "uninstall"@
    ||| word == "update"@
    ||| word == "check"@
    ||| word == "outdated"@
    ||| word == "upgrade"@
    ||| word == "search"@
    ||| word == "info"@
    ||| word == "show"@
    ||| word == "list"@
    ||| word == "help"@
}

/// Whether `word` is a command of the apt frontend.
pub open spec fn apt_word(word: Seq<char>) -> bool {
    ||| word == "update"@
    ||| word == "upgrade"@
    ||| word == "full-upgrade"@
    ||| word == "dist-upgrade"@
    ||| word == "install"@
    ||| word == "remove"@
    ||| word == "purge"@
    ||| word == "search"@
    ||| word == "show"@
    ||| word == "list"@
    ||| word == "help"@
}

/// Whether `word` is a command of the dnf frontend.
pub open spec fn dnf_command(word: Seq<char>) -> bool {
    ||| word == "install"@
    ||| word == "remove"@
    ||| word == "erase"@
    ||| word == "upgrade"@
    ||| word == "update"@
    ||| word == "check-update"@
    ||| word == "makecache"@
    ||| word == "search"@
    ||| word == "info"@
    ||| word == "list"@
    ||| word == "help"@
}

/// What each native command does with the arguments behind it. Arguments in front
/// of it that are no commands are passed over.
pub proof fn native_commands_do_their_work(before: Seq<Seq<char>>, rest: Seq<Seq<char>>)
    requires
        forall|i: int| 0 <= i < before.len() ==> !native_word(#[trigger] before[i]),
    ensures
        native_operation(before + seq!["install"@] + rest) == install_operation(rest, false),
        native_operation(before + seq!["add"@] + rest) == install_operation(rest, false),
        native_operation(before + seq!["remove"@] + rest) == remove_operation(rest, false),
        native_operation(before + seq!["uninstall"@] + rest) == remove_operation(rest, false),
        native_operation(before + seq!["update"@] + rest) == checking(),
        native_operation(before + seq!["check"@] + rest) == checking(),
        native_operation(before + seq!["outdated"@] + rest) == checking(),
        native_operation(before + seq!["upgrade"@] + rest) == Ok::<OperationView, ErrorView>(
            upgrade_operation(rest, false, false),
        ),
        native_operation(before + seq!["search"@] + rest) == search_operation(rest, "search"@),
        native_operation(before + seq!["info"@] + rest) == info_operation(rest, "info"@),
        native_operation(before + seq!["show"@] + rest) == info_operation(rest, "info"@),
        native_operation(before + seq!["list"@] + rest) == Ok::<OperationView, ErrorView>(
            OperationView::List { query: None },
        ),
        native_operation(before + seq!["help"@] + rest) == helping(),
        before.len() > 0 ==> native_operation(before) == Err::<OperationView, ErrorView>(
            ErrorView::Usage("unknown command '"@ + before[0] + "'"@),
        ),
        native_operation(Seq::empty()) == helping(),
{
    lemma_native_words();
    assert forall|i: int| 0 <= i < before.len() implies !crate::cli::is_command(
        Dialect::Native,
        #[trigger] before[i],
    ) by {
        assert(!native_word(before[i]));
    }
    lemma_command(Dialect::Native, before, "install"@, rest);
    lemma_command(Dialect::Native, before, "add"@, rest);
    lemma_command(Dialect::Native, before, "remove"@, rest);
    lemma_command(Dialect::Native, before, "uninstall"@, rest);
    lemma_command(Dialect::Native, before, "update"@, rest);
    lemma_command(Dialect::Native, before, "check"@, rest);
    lemma_command(Dialect::Native, before, "outdated"@, rest);
    lemma_command(Dialect::Native, before, "upgrade"@, rest);
    lemma_command(Dialect::Native, before, "search"@, rest);
    lemma_command(Dialect::Native, before, "info"@, rest);
    lemma_command(Dialect::Native, before, "show"@, rest);
    lemma_command(Dialect::Native, before, "list"@, rest);
    lemma_command(Dialect::Native, before, "help"@, rest);
    lemma_no_command(Dialect::Native, before);
    lemma_no_command(Dialect::Native, Seq::empty());
}

/// A check for updates.
pub open spec fn checking() -> Result<OperationView, ErrorView> {
    Ok(OperationView::CheckUpdates)
}

/// A request for help.
pub open spec fn helping() -> Result<OperationView, ErrorView> {
    Ok(OperationView::Help)
}

proof fn lemma_command(
    dialect: Dialect,
    before: Seq<Seq<char>>,
    word: Seq<char>,
    rest: Seq<Seq<char>>,
)
    requires
        forall|i: int|
            0 <= i < before.len() ==> !crate::cli::is_command(dialect, #[trigger] before[i]),
        crate::cli::is_command(dialect, word),
    ensures
        first_command(dialect, before + seq![word] + rest) == Some((word, rest)),
    decreases before.len(),
{
    let args = before + seq![word] + rest;
    if before.len() == 0 {
        assert(args[0] == word);
        assert(args.skip(1) =~= rest);
    } else {
        assert(args[0] == before[0]);
        assert(args.skip(1) =~= before.skip(1) + seq![word] + rest);
        assert forall|i: int| 0 <= i < before.skip(1).len() implies !crate::cli::is_command(
            dialect,
            #[trigger] before.skip(1)[i],
        ) by {
            assert(before.skip(1)[i] == before[i + 1]);
        }
        lemma_command(dialect, before.skip(1), word, rest);
    }
}

proof fn lemma_no_command(dialect: Dialect, args: Seq<Seq<char>>)
    requires
        forall|i: int|
            0 <= i < args.len() ==> !crate::cli::is_command(dialect, #[trigger] args[i]),
    ensures
        first_command(dialect, args) is None,
    decreases args.len(),
{
    if args.len() > 0 {
        assert forall|i: int| 0 <= i < args.skip(1).len() implies !crate::cli::is_command(
            dialect,
            #[trigger] args.skip(1)[i],
        ) by {
            assert(args.skip(1)[i] == args[i + 1]);
        }
        lemma_no_command(dialect, args.skip(1));
    }
}

/// The native commands are different words.
proof fn lemma_native_words()
    ensures
        "install"@ != "add"@,
        "install"@ != "remove"@,
        "install"@ != "uninstall"@,
        "install"@ != "update"@,
        "install"@ != "check"@,
        "install"@ != "outdated"@,
        "install"@ != "upgrade"@,
        "install"@ != "search"@,
        "install"@ != "info"@,
        "install"@ != "show"@,
        "install"@ != "list"@,
        "install"@ != "help"@,
        "add"@ != "remove"@,
        "add"@ != "uninstall"@,
        "add"@ != "update"@,
        "add"@ != "check"@,
        "add"@ != "outdated"@,
        "add"@ != "upgrade"@,
        "add"@ != "search"@,
        "add"@ != "info"@,
        "add"@ != "show"@,
        "add"@ != "list"@,
        "add"@ != "help"@,
        "remove"@ != "uninstall"@,
        "remove"@ != "update"@,
        "remove"@ != "check"@,
        "remove"@ != "outdated"@,
        "remove"@ != "upgrade"@,
        "remove"@ != "search"@,
        "remove"@ != "info"@,
        "remove"@ != "show"@,
        "remove"@ != "list"@,
        "remove"@ != "help"@,
        "uninstall"@ != "update"@,
        "uninstall"@ != "check"@,
        "uninstall"@ != "outdated"@,
        "uninstall"@ != "upgrade"@,
        "uninstall"@ != "search"@,
        "uninstall"@ != "info"@,
        "uninstall"@ != "show"@,
        "uninstall"@ != "list"@,
        "uninstall"@ != "help"@,
        "update"@ != "check"@,
        "update"@ != "outdated"@,
        "update"@ != "upgrade"@,
        "update"@ != "search"@,
        "update"@ != "info"@,
        "update"@ != "show"@,
        "update"@ != "list"@,
        "update"@ != "help"@,
        "check"@ != "outdated"@,
        "check"@ != "upgrade"@,
        "check"@ != "search"@,
        "check"@ != "info"@,
        "check"@ != "show"@,
        "check"@ != "list"@,
        "check"@ != "help"@,
        "outdated"@ != "upgrade"@,
        "outdated"@ != "search"@,
        "outdated"@ != "info"@,
        "outdated"@ != "show"@,
        "outdated"@ != "list"@,
        "outdated"@ != "help"@,
        "upgrade"@ != "search"@,
        "upgrade"@ != "info"@,
        "upgrade"@ != "show"@,
        "upgrade"@ != "list"@,
        "upgrade"@ != "help"@,
        "search"@ != "info"@,
        "search"@ != "show"@,
        "search"@ != "list"@,
        "search"@ != "help"@,
        "info"@ != "show"@,
        "info"@ != "list"@,
        "info"@ != "help"@,
        "show"@ != "list"@,
        "show"@ != "help"@,
        "list"@ != "help"@,
{
    reveal_strlit("install");
    reveal_strlit("add");
    reveal_strlit("remove");
    reveal_strlit("uninstall");
    reveal_strlit("update");
    reveal_strlit("check");
    reveal_strlit("outdated");
    reveal_strlit("upgrade");
    reveal_strlit("search");
    reveal_strlit("info");
    reveal_strlit("show");
    reveal_strlit("list");
    reveal_strlit("help");
    assert("install"@.len() == 7);
    assert("add"@.len() == 3);
    assert("remove"@.len() == 6);
    assert("uninstall"@.len() == 9);
    assert("update"@.len() == 6);
    assert("check"@.len() == 5);
    assert("outdated"@.len() == 8);
    assert("upgrade"@.len() == 7);
    assert("search"@.len() == 6);
    assert("info"@.len() == 4);
    assert("show"@.len() == 4);
    assert("list"@.len() == 4);
    assert("help"@.len() == 4);
    assert("install"@[0] == 'i' && "upgrade"@[0] == 'u');
    assert("remove"@[0] == 'r' && "update"@[0] == 'u');
    assert("remove"@[0] == 'r' && "search"@[0] == 's');
    assert("update"@[0] == 'u' && "search"@[0] == 's');
    assert("info"@[0] == 'i' && "show"@[0] == 's');
    assert("info"@[0] == 'i' && "list"@[0] == 'l');
    assert("info"@[0] == 'i' && "help"@[0] == 'h');
    assert("show"@[0] == 's' && "list"@[0] == 'l');
    assert("show"@[0] == 's' && "help"@[0] == 'h');
    assert("list"@[0] == 'l' && "help"@[0] == 'h');
}

/// Whether apt takes `arg` for one of its flags.
pub open spec fn apt_flag(arg: Seq<char>) -> bool {
    ||| arg == "-s"@
    ||| arg == "--simulate"@
    ||| arg == "--just-print"@
    ||| arg == "--recon"@
    ||| arg == "--dry-run"@
    ||| arg == "-y"@
    ||| arg == "--yes"@
    ||| arg == "--assume-yes"@
    ||| arg == "--installed"@
    ||| arg == "--upgradable"@
    ||| arg == "--upgradeable"@
}

/// What each apt command does with the arguments behind it, on a line without
/// apt's own flags.
pub proof fn apt_commands_do_their_work(before: Seq<Seq<char>>, rest: Seq<Seq<char>>)
    requires
        forall|i: int|
            0 <= i < before.len() ==> !apt_word(#[trigger] before[i]) && !apt_flag(before[i]),
        forall|i: int| 0 <= i < rest.len() ==> !apt_flag(#[trigger] rest[i]),
    ensures
        apt_operation(before + seq!["update"@] + rest) == checking(),
        apt_operation(before + seq!["upgrade"@] + rest) == Ok::<OperationView, ErrorView>(
            upgrade_operation(rest, false, false),
        ),
        apt_operation(before + seq!["full-upgrade"@] + rest) == Ok::<OperationView, ErrorView>(
            upgrade_operation(rest, false, false),
        ),
        apt_operation(before + seq!["dist-upgrade"@] + rest) == Ok::<OperationView, ErrorView>(
            upgrade_operation(rest, false, false),
        ),
        apt_operation(before + seq!["install"@] + rest) == install_operation(rest, false),
        apt_operation(before + seq!["remove"@] + rest) == remove_operation(rest, false),
        apt_operation(before + seq!["purge"@] + rest) == remove_operation(rest, false),
        apt_operation(before + seq!["search"@] + rest) == search_operation(rest, "search"@),
        apt_operation(before + seq!["show"@] + rest) == info_operation(rest, "show"@),
        apt_operation(before + seq!["list"@] + rest) == Ok::<OperationView, ErrorView>(
            OperationView::List {
                query: if rest.len() == 0 {
                    None
                } else {
                    Some(rest)
                },
            },
        ),
        apt_operation(before + seq!["help"@] + rest) == helping(),
        before.len() > 0 ==> apt_operation(before) == Err::<OperationView, ErrorView>(
            ErrorView::Usage("unknown command '"@ + before[0] + "'"@),
        ),
        apt_operation(Seq::empty()) == helping(),
{
    lemma_apt_words();
    assert forall|i: int| 0 <= i < before.len() implies !crate::cli::is_command(
        Dialect::Apt,
        #[trigger] before[i],
    ) by {
        assert(!apt_word(before[i]));
    }
    lemma_apt_does(before, "update"@, rest);
    lemma_apt_does(before, "upgrade"@, rest);
    lemma_apt_does(before, "full-upgrade"@, rest);
    lemma_apt_does(before, "dist-upgrade"@, rest);
    lemma_apt_does(before, "install"@, rest);
    lemma_apt_does(before, "remove"@, rest);
    lemma_apt_does(before, "purge"@, rest);
    lemma_apt_does(before, "search"@, rest);
    lemma_apt_does(before, "show"@, rest);
    lemma_apt_does(before, "list"@, rest);
    lemma_apt_does(before, "help"@, rest);
    lemma_apt_misses(before);
    lemma_apt_misses(Seq::empty());
}

/// What the apt command `word` does with the arguments behind it.
spec fn apt_does(word: Seq<char>, rest: Seq<Seq<char>>) -> Result<OperationView, ErrorView> {
    if word == "update"@ {
        checking()
    } else if word == "upgrade"@ || word == "full-upgrade"@ || word == "dist-upgrade"@ {
        Ok(upgrade_operation(rest, false, false))
    } else if word == "install"@ {
        install_operation(rest, false)
    } else if word == "remove"@ || word == "purge"@ {
        remove_operation(rest, false)
    } else if word == "search"@ {
        search_operation(rest, "search"@)
    } else if word == "show"@ {
        info_operation(rest, "show"@)
    } else if word == "list"@ {
        Ok(
            OperationView::List {
                query: if rest.len() == 0 {
                    None
                } else {
                    Some(rest)
                },
            },
        )
    } else {
        helping()
    }
}

proof fn lemma_apt_does(before: Seq<Seq<char>>, word: Seq<char>, rest: Seq<Seq<char>>)
    requires
        forall|i: int| 0 <= i < before.len() ==> !apt_flag(#[trigger] before[i]),
        forall|i: int| 0 <= i < rest.len() ==> !apt_flag(#[trigger] rest[i]),
        forall|i: int|
            0 <= i < before.len() ==> !crate::cli::is_command(Dialect::Apt, #[trigger] before[i]),
        apt_word(word),
    ensures
        apt_operation(before + seq![word] + rest) == apt_does(word, rest),
{
    lemma_apt_line(before, word, rest);
    lemma_apt_dispatch(before + seq![word] + rest, word, rest);
}

proof fn lemma_apt_dispatch(line: Seq<Seq<char>>, word: Seq<char>, rest: Seq<Seq<char>>)
    requires
        line.filter(|arg: Seq<char>| !crate::cli::is_apt_flag(arg)) == line,
        !any_arg(line, |arg: Seq<char>| crate::cli::apt_simulates(arg)),
        !any_arg(line, |arg: Seq<char>| crate::cli::apt_upgradable(arg)),
        !line.contains("--installed"@),
        line.len() > 0,
        first_command(Dialect::Apt, line) == Some((word, rest)),
    ensures
        apt_operation(line) == apt_does(word, rest),
{
}

proof fn lemma_apt_misses(args: Seq<Seq<char>>)
    requires
        forall|i: int|
            0 <= i < args.len() ==> !apt_word(#[trigger] args[i]) && !apt_flag(args[i]),
    ensures
        apt_operation(args) == if args.len() == 0 {
            helping()
        } else {
            Err::<OperationView, ErrorView>(
                ErrorView::Usage("unknown command '"@ + args[0] + "'"@),
            )
        },
{
    let keep = |arg: Seq<char>| !crate::cli::is_apt_flag(arg);
    assert forall|i: int| 0 <= i < args.len() implies keep(#[trigger] args[i])
        && !crate::cli::is_command(Dialect::Apt, args[i]) by {
        assert(!apt_flag(args[i]));
    }
    lemma_all_kept(args, keep);
    lemma_no_command(Dialect::Apt, args);
}

proof fn lemma_apt_line(before: Seq<Seq<char>>, word: Seq<char>, rest: Seq<Seq<char>>)
    requires
        forall|i: int| 0 <= i < before.len() ==> !apt_flag(#[trigger] before[i]),
        forall|i: int| 0 <= i < rest.len() ==> !apt_flag(#[trigger] rest[i]),
        forall|i: int|
            0 <= i < before.len() ==> !crate::cli::is_command(Dialect::Apt, #[trigger] before[i]),
        apt_word(word),
    ensures
        ({
            let line = before + seq![word] + rest;
            &&& line.filter(|arg: Seq<char>| !crate::cli::is_apt_flag(arg)) == line
            &&& !any_arg(line, |arg: Seq<char>| crate::cli::apt_simulates(arg))
            &&& !any_arg(line, |arg: Seq<char>| crate::cli::apt_upgradable(arg))
            &&& !line.contains("--installed"@)
            &&& line.len() > 0
            &&& first_command(Dialect::Apt, line) == Some((word, rest))
        }),
{
    let line = before + seq![word] + rest;
    let keep = |arg: Seq<char>| !crate::cli::is_apt_flag(arg);
    lemma_apt_word_is_no_flag(word);
    assert forall|i: int| 0 <= i < line.len() implies !apt_flag(#[trigger] line[i]) by {
        if i < before.len() {
            assert(line[i] == before[i]);
        } else if i > before.len() {
            assert(line[i] == rest[i - before.len() - 1]);
        }
    }
    assert forall|i: int| 0 <= i < line.len() implies keep(#[trigger] line[i]) by {
        assert(!apt_flag(line[i]));
    }
    lemma_all_kept(line, keep);
    lemma_command(Dialect::Apt, before, word, rest);
}

proof fn lemma_all_kept(args: Seq<Seq<char>>, keep: spec_fn(Seq<char>) -> bool)
    requires
        forall|i: int| 0 <= i < args.len() ==> keep(#[trigger] args[i]),
    ensures
        args.filter(keep) == args,
    decreases args.len(),
{
    reveal(Seq::filter);
    if args.len() > 0 {
        let before = args.drop_last();
        assert forall|i: int| 0 <= i < before.len() implies keep(#[trigger] before[i]) by {
            assert(before[i] == args[i]);
        }
        lemma_all_kept(before, keep);
        assert(keep(args[args.len() - 1]));
        assert(before.push(args.last()) =~= args);
    } else {
        assert(args =~= Seq::<Seq<char>>::empty());
    }
}

proof fn lemma_apt_word_is_no_flag(word: Seq<char>)
    requires
        apt_word(word),
    ensures
        !apt_flag(word),
{
    reveal_strlit("update");
    reveal_strlit("upgrade");
    reveal_strlit("full-upgrade");
    reveal_strlit("dist-upgrade");
    reveal_strlit("install");
    reveal_strlit("remove");
    reveal_strlit("purge");
    reveal_strlit("search");
    reveal_strlit("show");
    reveal_strlit("list");
    reveal_strlit("help");
    reveal_strlit("-s");
    reveal_strlit("--simulate");
    reveal_strlit("--just-print");
    reveal_strlit("--recon");
    reveal_strlit("--dry-run");
    reveal_strlit("-y");
    reveal_strlit("--yes");
    reveal_strlit("--assume-yes");
    reveal_strlit("--installed");
    reveal_strlit("--upgradable");
    reveal_strlit("--upgradeable");
    assert(word[0] != '-');
}

/// apt's `-y`, `--yes` and `--assume-yes` change nothing, wherever they stand;
/// `-s`, `--simulate`, `--just-print`, `--recon` and `--dry-run` make a line a dry
/// run and change nothing else.
pub proof fn apt_flags_are_for_this(before: Seq<Seq<char>>, flag: Seq<char>, after: Seq<Seq<char>>)
    ensures
        (flag == "-y"@ || flag == "--yes"@ || flag == "--assume-yes"@) ==> apt_operation(
            before + seq![flag] + after,
        ) == apt_operation(before + after),
        (flag == "-s"@ || flag == "--simulate"@ || flag == "--just-print"@ || flag == "--recon"@
            || flag == "--dry-run"@) ==> apt_operation(before + seq![flag] + after)
            == as_dry_run(apt_operation(before + after)),
{
    let with = before + seq![flag] + after;
    let without = before + after;
    reveal_strlit("-s");
    reveal_strlit("--simulate");
    reveal_strlit("--just-print");
    reveal_strlit("--recon");
    reveal_strlit("--dry-run");
    reveal_strlit("-y");
    reveal_strlit("--yes");
    reveal_strlit("--assume-yes");
    reveal_strlit("--installed");
    reveal_strlit("--upgradable");
    reveal_strlit("--upgradeable");
    lemma_apt_flags();
    if flag == "-y"@ || flag == "--yes"@ || flag == "--assume-yes"@ || flag == "-s"@ || flag
        == "--simulate"@ || flag == "--just-print"@ || flag == "--recon"@ || flag == "--dry-run"@ {
        crate::cli::lemma_dropped(
            before,
            flag,
            after,
            |arg: Seq<char>| !crate::cli::is_apt_flag(arg),
        );
        crate::cli::lemma_not_any(
            before,
            flag,
            after,
            |arg: Seq<char>| crate::cli::apt_upgradable(arg),
        );
        crate::cli::lemma_not_any(before, flag, after, |arg: Seq<char>| arg == "--installed"@);
        crate::cli::lemma_contains_any(with, "--installed"@);
        crate::cli::lemma_contains_any(without, "--installed"@);
        let simulates = |arg: Seq<char>| crate::cli::apt_simulates(arg);
        if simulates(flag) {
            assert(with[before.len() as int] == flag);
            assert(any_arg(with, simulates));
        } else {
            crate::cli::lemma_not_any(before, flag, after, simulates);
        }
    }
}

/// The same operation as a dry run.
pub open spec fn as_dry_run(operation: Result<OperationView, ErrorView>) -> Result<
    OperationView,
    ErrorView,
> {
    match operation {
        Ok(OperationView::Install { packages, cargo_args, .. }) => Ok(
            OperationView::Install { packages, cargo_args, dry_run: true },
        ),
        Ok(OperationView::Remove { packages, cargo_args, .. }) => Ok(
            OperationView::Remove { packages, cargo_args, dry_run: true },
        ),
        Ok(OperationView::Upgrade { locked, also_install, install_args, .. }) => Ok(
            OperationView::Upgrade { dry_run: true, locked, also_install, install_args },
        ),
        other => other,
    }
}

proof fn lemma_apt_flags()
    ensures
        "-s"@ != "--simulate"@,
        "-s"@ != "--just-print"@,
        "-s"@ != "--recon"@,
        "-s"@ != "--dry-run"@,
        "-s"@ != "-y"@,
        "-s"@ != "--yes"@,
        "-s"@ != "--assume-yes"@,
        "-s"@ != "--installed"@,
        "-s"@ != "--upgradable"@,
        "-s"@ != "--upgradeable"@,
        "--simulate"@ != "--just-print"@,
        "--simulate"@ != "--recon"@,
        "--simulate"@ != "--dry-run"@,
        "--simulate"@ != "-y"@,
        "--simulate"@ != "--yes"@,
        "--simulate"@ != "--assume-yes"@,
        "--simulate"@ != "--installed"@,
        "--simulate"@ != "--upgradable"@,
        "--simulate"@ != "--upgradeable"@,
        "--just-print"@ != "--recon"@,
        "--just-print"@ != "--dry-run"@,
        "--just-print"@ != "-y"@,
        "--just-print"@ != "--yes"@,
        "--just-print"@ != "--assume-yes"@,
        "--just-print"@ != "--installed"@,
        "--just-print"@ != "--upgradable"@,
        "--just-print"@ != "--upgradeable"@,
        "--recon"@ != "--dry-run"@,
        "--recon"@ != "-y"@,
        "--recon"@ != "--yes"@,
        "--recon"@ != "--assume-yes"@,
        "--recon"@ != "--installed"@,
        "--recon"@ != "--upgradable"@,
        "--recon"@ != "--upgradeable"@,
        "--dry-run"@ != "-y"@,
        "--dry-run"@ != "--yes"@,
        "--dry-run"@ != "--assume-yes"@,
        "--dry-run"@ != "--installed"@,
        "--dry-run"@ != "--upgradable"@,
        "--dry-run"@ != "--upgradeable"@,
        "-y"@ != "--yes"@,
        "-y"@ != "--assume-yes"@,
        "-y"@ != "--installed"@,
        "-y"@ != "--upgradable"@,
        "-y"@ != "--upgradeable"@,
        "--yes"@ != "--assume-yes"@,
        "--yes"@ != "--installed"@,
        "--yes"@ != "--upgradable"@,
        "--yes"@ != "--upgradeable"@,
        "--assume-yes"@ != "--installed"@,
        "--assume-yes"@ != "--upgradable"@,
        "--assume-yes"@ != "--upgradeable"@,
        "--installed"@ != "--upgradable"@,
        "--installed"@ != "--upgradeable"@,
        "--upgradable"@ != "--upgradeable"@,
{
    reveal_strlit("-s");
    reveal_strlit("--simulate");
    reveal_strlit("--just-print");
    reveal_strlit("--recon");
    reveal_strlit("--dry-run");
    reveal_strlit("-y");
    reveal_strlit("--yes");
    reveal_strlit("--assume-yes");
    reveal_strlit("--installed");
    reveal_strlit("--upgradable");
    reveal_strlit("--upgradeable");
    assert("-s"@.len() == 2);
    assert("--simulate"@.len() == 10);
    assert("--just-print"@.len() == 12);
    assert("--recon"@.len() == 7);
    assert("--dry-run"@.len() == 9);
    assert("-y"@.len() == 2);
    assert("--yes"@.len() == 5);
    assert("--assume-yes"@.len() == 12);
    assert("--installed"@.len() == 11);
    assert("--upgradable"@.len() == 12);
    assert("--upgradeable"@.len() == 13);
    assert("-s"@[1] == 's' && "-y"@[1] == 'y');
    assert("--just-print"@[2] == 'j' && "--assume-yes"@[2] == 'a');
    assert("--just-print"@[2] == 'j' && "--upgradable"@[2] == 'u');
    assert("--assume-yes"@[2] == 'a' && "--upgradable"@[2] == 'u');
}

proof fn lemma_apt_words()
    ensures
        "update"@ != "upgrade"@,
        "update"@ != "full-upgrade"@,
        "update"@ != "dist-upgrade"@,
        "update"@ != "install"@,
        "update"@ != "remove"@,
        "update"@ != "purge"@,
        "update"@ != "search"@,
        "update"@ != "show"@,
        "update"@ != "list"@,
        "update"@ != "help"@,
        "upgrade"@ != "full-upgrade"@,
        "upgrade"@ != "dist-upgrade"@,
        "upgrade"@ != "install"@,
        "upgrade"@ != "remove"@,
        "upgrade"@ != "purge"@,
        "upgrade"@ != "search"@,
        "upgrade"@ != "show"@,
        "upgrade"@ != "list"@,
        "upgrade"@ != "help"@,
        "full-upgrade"@ != "dist-upgrade"@,
        "full-upgrade"@ != "install"@,
        "full-upgrade"@ != "remove"@,
        "full-upgrade"@ != "purge"@,
        "full-upgrade"@ != "search"@,
        "full-upgrade"@ != "show"@,
        "full-upgrade"@ != "list"@,
        "full-upgrade"@ != "help"@,
        "dist-upgrade"@ != "install"@,
        "dist-upgrade"@ != "remove"@,
        "dist-upgrade"@ != "purge"@,
        "dist-upgrade"@ != "search"@,
        "dist-upgrade"@ != "show"@,
        "dist-upgrade"@ != "list"@,
        "dist-upgrade"@ != "help"@,
        "install"@ != "remove"@,
        "install"@ != "purge"@,
        "install"@ != "search"@,
        "install"@ != "show"@,
        "install"@ != "list"@,
        "install"@ != "help"@,
        "remove"@ != "purge"@,
        "remove"@ != "search"@,
        "remove"@ != "show"@,
        "remove"@ != "list"@,
        "remove"@ != "help"@,
        "purge"@ != "search"@,
        "purge"@ != "show"@,
        "purge"@ != "list"@,
        "purge"@ != "help"@,
        "search"@ != "show"@,
        "search"@ != "list"@,
        "search"@ != "help"@,
        "show"@ != "list"@,
        "show"@ != "help"@,
        "list"@ != "help"@,
{
    reveal_strlit("update");
    reveal_strlit("upgrade");
    reveal_strlit("full-upgrade");
    reveal_strlit("dist-upgrade");
    reveal_strlit("install");
    reveal_strlit("remove");
    reveal_strlit("purge");
    reveal_strlit("search");
    reveal_strlit("show");
    reveal_strlit("list");
    reveal_strlit("help");
    assert("update"@.len() == 6);
    assert("upgrade"@.len() == 7);
    assert("full-upgrade"@.len() == 12);
    assert("dist-upgrade"@.len() == 12);
    assert("install"@.len() == 7);
    assert("remove"@.len() == 6);
    assert("purge"@.len() == 5);
    assert("search"@.len() == 6);
    assert("show"@.len() == 4);
    assert("list"@.len() == 4);
    assert("help"@.len() == 4);
    assert("update"@[0] == 'u' && "remove"@[0] == 'r');
    assert("update"@[0] == 'u' && "search"@[0] == 's');
    assert("upgrade"@[0] == 'u' && "install"@[0] == 'i');
    assert("full-upgrade"@[0] == 'f' && "dist-upgrade"@[0] == 'd');
    assert("remove"@[0] == 'r' && "search"@[0] == 's');
    assert("show"@[0] == 's' && "list"@[0] == 'l');
    assert("show"@[0] == 's' && "help"@[0] == 'h');
    assert("list"@[0] == 'l' && "help"@[0] == 'h');
}

/// An apt list of upgradable packages is a check for updates, and one of
/// installed packages is the full list, whatever else it names.
pub proof fn apt_lists_are_restricted_by_flags(rest: Seq<Seq<char>>, flag: Seq<char>)
    requires
        forall|i: int| 0 <= i < rest.len() ==> !apt_flag(#[trigger] rest[i]),
    ensures
        (flag == "--upgradable"@ || flag == "--upgradeable"@) ==> apt_operation(
            seq!["list"@] + rest + seq![flag],
        ) == checking(),
        flag == "--installed"@ ==> apt_operation(seq!["list"@] + rest + seq![flag]) == Ok::<
            OperationView,
            ErrorView,
        >(OperationView::List { query: None }),
{
    let none = Seq::<Seq<char>>::empty();
    let line = seq!["list"@] + rest;
    let with = line + seq![flag] + none;
    lemma_apt_words();
    lemma_apt_flags();
    lemma_apt_line(none, "list"@, rest);
    assert(none + seq!["list"@] + rest =~= line);
    assert(with =~= seq!["list"@] + rest + seq![flag]);
    assert(line + none =~= line);
    if flag == "--upgradable"@ || flag == "--upgradeable"@ || flag == "--installed"@ {
        let keep = |arg: Seq<char>| !crate::cli::is_apt_flag(arg);
        crate::cli::lemma_dropped(line, flag, none, keep);
        let upgradable = |arg: Seq<char>| crate::cli::apt_upgradable(arg);
        assert(with[line.len() as int] == flag);
        if flag == "--installed"@ {
            assert(with.contains("--installed"@));
            crate::cli::lemma_not_any(line, flag, none, upgradable);
        } else {
            assert(upgradable(with[line.len() as int]));
            assert(any_arg(with, upgradable));
        }
    }
}

/// Whether dnf takes `arg` for one of its flags.
pub open spec fn dnf_flag(arg: Seq<char>) -> bool {
    ||| arg == "-y"@
    ||| arg == "--assumeyes"@
    ||| arg == "--assume-yes"@
    ||| arg == "-n"@
    ||| arg == "--assumeno"@
    ||| arg == "--installed"@
    ||| arg == "--updates"@
    ||| arg == "--upgradable"@
    ||| arg == "--upgradeable"@
}

/// What each dnf command does with the arguments behind it, on a line without
/// dnf's own flags.
pub proof fn dnf_commands_do_their_work(before: Seq<Seq<char>>, rest: Seq<Seq<char>>)
    requires
        forall|i: int|
            0 <= i < before.len() ==> !dnf_command(#[trigger] before[i]) && !dnf_flag(before[i]),
        forall|i: int| 0 <= i < rest.len() ==> !dnf_flag(#[trigger] rest[i]),
    ensures
        dnf_operation(before + seq!["install"@] + rest) == install_operation(rest, false),
        dnf_operation(before + seq!["remove"@] + rest) == remove_operation(rest, false),
        dnf_operation(before + seq!["erase"@] + rest) == remove_operation(rest, false),
        dnf_operation(before + seq!["upgrade"@] + rest) == Ok::<OperationView, ErrorView>(
            upgrade_operation(rest, false, false),
        ),
        dnf_operation(before + seq!["update"@] + rest) == Ok::<OperationView, ErrorView>(
            upgrade_operation(rest, false, false),
        ),
        dnf_operation(before + seq!["check-update"@] + rest) == checking(),
        dnf_operation(before + seq!["makecache"@] + rest) == checking(),
        dnf_operation(before + seq!["search"@] + rest) == search_operation(rest, "search"@),
        dnf_operation(before + seq!["info"@] + rest) == info_operation(rest, "info"@),
        dnf_operation(before + seq!["list"@] + rest) == if rest.contains("updates"@)
            || rest.contains("upgrades"@) {
            checking()
        } else {
            Ok(
                OperationView::List {
                    query: if rest.len() == 0 || rest.contains("installed"@) {
                        None
                    } else {
                        Some(rest)
                    },
                },
            )
        },
        dnf_operation(before + seq!["help"@] + rest) == helping(),
        before.len() > 0 ==> dnf_operation(before) == Err::<OperationView, ErrorView>(
            ErrorView::Usage("unknown command '"@ + before[0] + "'"@),
        ),
        dnf_operation(Seq::empty()) == helping(),
{
    lemma_dnf_words();
    assert forall|i: int| 0 <= i < before.len() implies !crate::cli::is_command(
        Dialect::Dnf,
        #[trigger] before[i],
    ) by {
        assert(!dnf_command(before[i]));
    }
    lemma_dnf_line(before, "install"@, rest);
    lemma_dnf_line(before, "remove"@, rest);
    lemma_dnf_line(before, "erase"@, rest);
    lemma_dnf_line(before, "upgrade"@, rest);
    lemma_dnf_line(before, "update"@, rest);
    lemma_dnf_line(before, "check-update"@, rest);
    lemma_dnf_line(before, "makecache"@, rest);
    lemma_dnf_line(before, "search"@, rest);
    lemma_dnf_line(before, "info"@, rest);
    lemma_dnf_line(before, "list"@, rest);
    lemma_dnf_line(before, "help"@, rest);
    lemma_dnf_plain(before);
    lemma_no_command(Dialect::Dnf, before);
    lemma_dnf_plain(Seq::empty());
    let updates = |arg: Seq<char>| crate::cli::dnf_wants_updates(arg);
    let installed = |arg: Seq<char>| crate::cli::dnf_wants_installed(arg);
    assert(any_arg(rest, updates) == (rest.contains("updates"@) || rest.contains("upgrades"@))) by {
        if any_arg(rest, updates) {
            let i = choose|i: int| 0 <= i < rest.len() && updates(#[trigger] rest[i]);
            assert(!dnf_flag(rest[i]));
        }
        if rest.contains("updates"@) || rest.contains("upgrades"@) {
            let i = choose|i: int|
                0 <= i < rest.len() && (rest[i] == "updates"@ || rest[i] == "upgrades"@);
            assert(updates(rest[i]));
        }
    }
    assert(any_arg(rest, installed) == rest.contains("installed"@)) by {
        if any_arg(rest, installed) {
            let i = choose|i: int| 0 <= i < rest.len() && installed(#[trigger] rest[i]);
            assert(!dnf_flag(rest[i]));
        }
        if rest.contains("installed"@) {
            let i = choose|i: int| 0 <= i < rest.len() && rest[i] == "installed"@;
            assert(installed(rest[i]));
        }
    }
}

proof fn lemma_dnf_plain(args: Seq<Seq<char>>)
    requires
        forall|i: int| 0 <= i < args.len() ==> !dnf_flag(#[trigger] args[i]),
    ensures
        crate::cli::dnf_words(args) == args,
        !any_arg(args, |arg: Seq<char>| crate::cli::dnf_declines(arg)),
{
    let keep = |arg: Seq<char>| !crate::cli::dnf_agrees(arg) && !crate::cli::dnf_declines(arg);
    assert forall|i: int| 0 <= i < args.len() implies keep(#[trigger] args[i]) by {
        assert(!dnf_flag(args[i]));
    }
    lemma_all_kept(args, keep);
    assert(crate::cli::dnf_words(args) =~= args) by {
        assert forall|i: int| 0 <= i < args.len() implies #[trigger] crate::cli::dnf_word(args[i])
            == args[i] by {
            assert(!dnf_flag(args[i]));
        }
    }
}

proof fn lemma_dnf_line(before: Seq<Seq<char>>, word: Seq<char>, rest: Seq<Seq<char>>)
    requires
        forall|i: int| 0 <= i < before.len() ==> !dnf_flag(#[trigger] before[i]),
        forall|i: int| 0 <= i < rest.len() ==> !dnf_flag(#[trigger] rest[i]),
        forall|i: int|
            0 <= i < before.len() ==> !crate::cli::is_command(Dialect::Dnf, #[trigger] before[i]),
        dnf_command(word),
    ensures
        ({
            let line = before + seq![word] + rest;
            &&& crate::cli::dnf_words(line) == line
            &&& !any_arg(line, |arg: Seq<char>| crate::cli::dnf_declines(arg))
            &&& line.len() > 0
            &&& first_command(Dialect::Dnf, line) == Some((word, rest))
        }),
{
    let line = before + seq![word] + rest;
    assert(!dnf_flag(word)) by {
        reveal_strlit("install");
        reveal_strlit("remove");
        reveal_strlit("erase");
        reveal_strlit("upgrade");
        reveal_strlit("update");
        reveal_strlit("check-update");
        reveal_strlit("makecache");
        reveal_strlit("search");
        reveal_strlit("info");
        reveal_strlit("list");
        reveal_strlit("help");
        reveal_strlit("-y");
        reveal_strlit("--assumeyes");
        reveal_strlit("--assume-yes");
        reveal_strlit("-n");
        reveal_strlit("--assumeno");
        reveal_strlit("--installed");
        reveal_strlit("--updates");
        reveal_strlit("--upgradable");
        reveal_strlit("--upgradeable");
        assert(word[0] != '-');
    }
    assert forall|i: int| 0 <= i < line.len() implies !dnf_flag(#[trigger] line[i]) by {
        if i < before.len() {
            assert(line[i] == before[i]);
        } else if i > before.len() {
            assert(line[i] == rest[i - before.len() - 1]);
        }
    }
    lemma_dnf_plain(line);
    lemma_command(Dialect::Dnf, before, word, rest);
}

proof fn lemma_dnf_words()
    ensures
        "install"@ != "remove"@,
        "install"@ != "erase"@,
        "install"@ != "upgrade"@,
        "install"@ != "update"@,
        "install"@ != "check-update"@,
        "install"@ != "makecache"@,
        "install"@ != "search"@,
        "install"@ != "info"@,
        "install"@ != "list"@,
        "install"@ != "help"@,
        "remove"@ != "erase"@,
        "remove"@ != "upgrade"@,
        "remove"@ != "update"@,
        "remove"@ != "check-update"@,
        "remove"@ != "makecache"@,
        "remove"@ != "search"@,
        "remove"@ != "info"@,
        "remove"@ != "list"@,
        "remove"@ != "help"@,
        "erase"@ != "upgrade"@,
        "erase"@ != "update"@,
        "erase"@ != "check-update"@,
        "erase"@ != "makecache"@,
        "erase"@ != "search"@,
        "erase"@ != "info"@,
        "erase"@ != "list"@,
        "erase"@ != "help"@,
        "upgrade"@ != "update"@,
        "upgrade"@ != "check-update"@,
        "upgrade"@ != "makecache"@,
        "upgrade"@ != "search"@,
        "upgrade"@ != "info"@,
        "upgrade"@ != "list"@,
        "upgrade"@ != "help"@,
        "update"@ != "check-update"@,
        "update"@ != "makecache"@,
        "update"@ != "search"@,
        "update"@ != "info"@,
        "update"@ != "list"@,
        "update"@ != "help"@,
        "check-update"@ != "makecache"@,
        "check-update"@ != "search"@,
        "check-update"@ != "info"@,
        "check-update"@ != "list"@,
        "check-update"@ != "help"@,
        "makecache"@ != "search"@,
        "makecache"@ != "info"@,
        "makecache"@ != "list"@,
        "makecache"@ != "help"@,
        "search"@ != "info"@,
        "search"@ != "list"@,
        "search"@ != "help"@,
        "info"@ != "list"@,
        "info"@ != "help"@,
        "list"@ != "help"@,
{
    reveal_strlit("install");
    reveal_strlit("remove");
    reveal_strlit("erase");
    reveal_strlit("upgrade");
    reveal_strlit("update");
    reveal_strlit("check-update");
    reveal_strlit("makecache");
    reveal_strlit("search");
    reveal_strlit("info");
    reveal_strlit("list");
    reveal_strlit("help");
    assert("install"@.len() == 7);
    assert("remove"@.len() == 6);
    assert("erase"@.len() == 5);
    assert("upgrade"@.len() == 7);
    assert("update"@.len() == 6);
    assert("check-update"@.len() == 12);
    assert("makecache"@.len() == 9);
    assert("search"@.len() == 6);
    assert("info"@.len() == 4);
    assert("list"@.len() == 4);
    assert("help"@.len() == 4);
    assert("install"@[0] == 'i' && "upgrade"@[0] == 'u');
    assert("remove"@[0] == 'r' && "update"@[0] == 'u');
    assert("remove"@[0] == 'r' && "search"@[0] == 's');
    assert("update"@[0] == 'u' && "search"@[0] == 's');
    assert("info"@[0] == 'i' && "list"@[0] == 'l');
    assert("info"@[0] == 'i' && "help"@[0] == 'h');
    assert("list"@[0] == 'l' && "help"@[0] == 'h');
}

/// dnf's `-y`, `--assumeyes` and `--assume-yes` change nothing, wherever they
/// stand; `-n` and `--assumeno` make a line a dry run and change nothing else;
/// `--installed` is the word `installed`, and `--updates`, `--upgradable` and
/// `--upgradeable` are the word `updates`.
pub proof fn dnf_flags_are_for_this(before: Seq<Seq<char>>, flag: Seq<char>, after: Seq<Seq<char>>)
    ensures
        (flag == "-y"@ || flag == "--assumeyes"@ || flag == "--assume-yes"@) ==> dnf_operation(
            before + seq![flag] + after,
        ) == dnf_operation(before + after),
        (flag == "-n"@ || flag == "--assumeno"@) ==> dnf_operation(before + seq![flag] + after)
            == as_dry_run(dnf_operation(before + after)),
        flag == "--installed"@ ==> dnf_operation(before + seq![flag] + after) == dnf_operation(
            before + seq!["installed"@] + after,
        ),
        (flag == "--updates"@ || flag == "--upgradable"@ || flag == "--upgradeable"@)
            ==> dnf_operation(before + seq![flag] + after) == dnf_operation(
            before + seq!["updates"@] + after,
        ),
{
    lemma_dnf_flags();
    let with = before + seq![flag] + after;
    let keep = |arg: Seq<char>| !crate::cli::dnf_agrees(arg) && !crate::cli::dnf_declines(arg);
    let declines = |arg: Seq<char>| crate::cli::dnf_declines(arg);
    let word = |arg: Seq<char>| crate::cli::dnf_word(arg);
    if !keep(flag) {
        crate::cli::lemma_dropped(before, flag, after, keep);
        if declines(flag) {
            assert(with[before.len() as int] == flag);
            assert(any_arg(with, declines));
        } else {
            crate::cli::lemma_not_any(before, flag, after, declines);
        }
    } else {
        let other = if flag == "--installed"@ {
            "installed"@
        } else {
            "updates"@
        };
        let instead = before + seq![other] + after;
        Seq::filter_distributes_over_add(before + seq![flag], after, keep);
        Seq::filter_distributes_over_add(before, seq![flag], keep);
        Seq::filter_distributes_over_add(before + seq![other], after, keep);
        Seq::filter_distributes_over_add(before, seq![other], keep);
        lemma_all_kept(seq![flag], keep);
        lemma_all_kept(seq![other], keep);
        crate::cli::lemma_not_any(before, flag, after, declines);
        crate::cli::lemma_not_any(before, other, after, declines);
        if word(flag) == word(other) {
            assert(with.filter(keep).map_values(word) =~= instead.filter(keep).map_values(word));
        }
    }
}

proof fn lemma_dnf_flags()
    ensures
        "-y"@ != "--assumeyes"@,
        "-y"@ != "--assume-yes"@,
        "-y"@ != "-n"@,
        "-y"@ != "--assumeno"@,
        "-y"@ != "--installed"@,
        "-y"@ != "--updates"@,
        "-y"@ != "--upgradable"@,
        "-y"@ != "--upgradeable"@,
        "-y"@ != "installed"@,
        "-y"@ != "updates"@,
        "--assumeyes"@ != "--assume-yes"@,
        "--assumeyes"@ != "-n"@,
        "--assumeyes"@ != "--assumeno"@,
        "--assumeyes"@ != "--installed"@,
        "--assumeyes"@ != "--updates"@,
        "--assumeyes"@ != "--upgradable"@,
        "--assumeyes"@ != "--upgradeable"@,
        "--assumeyes"@ != "installed"@,
        "--assumeyes"@ != "updates"@,
        "--assume-yes"@ != "-n"@,
        "--assume-yes"@ != "--assumeno"@,
        "--assume-yes"@ != "--installed"@,
        "--assume-yes"@ != "--updates"@,
        "--assume-yes"@ != "--upgradable"@,
        "--assume-yes"@ != "--upgradeable"@,
        "--assume-yes"@ != "installed"@,
        "--assume-yes"@ != "updates"@,
        "-n"@ != "--assumeno"@,
        "-n"@ != "--installed"@,
        "-n"@ != "--updates"@,
        "-n"@ != "--upgradable"@,
        "-n"@ != "--upgradeable"@,
        "-n"@ != "installed"@,
        "-n"@ != "updates"@,
        "--assumeno"@ != "--installed"@,
        "--assumeno"@ != "--updates"@,
        "--assumeno"@ != "--upgradable"@,
        "--assumeno"@ != "--upgradeable"@,
        "--assumeno"@ != "installed"@,
        "--assumeno"@ != "updates"@,
        "--installed"@ != "--updates"@,
        "--installed"@ != "--upgradable"@,
        "--installed"@ != "--upgradeable"@,
        "--installed"@ != "installed"@,
        "--installed"@ != "updates"@,
        "--updates"@ != "--upgradable"@,
        "--updates"@ != "--upgradeable"@,
        "--updates"@ != "installed"@,
        "--updates"@ != "updates"@,
        "--upgradable"@ != "--upgradeable"@,
        "--upgradable"@ != "installed"@,
        "--upgradable"@ != "updates"@,
        "--upgradeable"@ != "installed"@,
        "--upgradeable"@ != "updates"@,
        "installed"@ != "updates"@,
{
    reveal_strlit("-y");
    reveal_strlit("--assumeyes");
    reveal_strlit("--assume-yes");
    reveal_strlit("-n");
    reveal_strlit("--assumeno");
    reveal_strlit("--installed");
    reveal_strlit("--updates");
    reveal_strlit("--upgradable");
    reveal_strlit("--upgradeable");
    reveal_strlit("installed");
    reveal_strlit("updates");
    assert("-y"@.len() == 2);
    assert("--assumeyes"@.len() == 11);
    assert("--assume-yes"@.len() == 12);
    assert("-n"@.len() == 2);
    assert("--assumeno"@.len() == 10);
    assert("--installed"@.len() == 11);
    assert("--updates"@.len() == 9);
    assert("--upgradable"@.len() == 12);
    assert("--upgradeable"@.len() == 13);
    assert("installed"@.len() == 9);
    assert("updates"@.len() == 7);
    assert("-y"@[1] == 'y' && "-n"@[1] == 'n');
    assert("--assumeyes"@[2] == 'a' && "--installed"@[2] == 'i');
    assert("--assume-yes"@[2] == 'a' && "--upgradable"@[2] == 'u');
    assert("--updates"@[0] == '-' && "installed"@[0] == 'i');
}

/// A line without a global flag is left to its frontend; without any argument it
/// asks for help.
pub proof fn frontends_get_their_lines(args: Seq<Seq<char>>)
    requires
        !args.contains("--help"@),
        !args.contains("-h"@),
        !args.contains("--dry-run"@),
        !args.contains("--locked"@),
        args.len() > 0,
    ensures
        parsed(Dialect::Native, args) == native_operation(args),
        parsed(Dialect::Pacman, args) == pacman_operation(args),
        parsed(Dialect::Apt, args) == apt_operation(args),
        parsed(Dialect::Dnf, args) == dnf_operation(args),
{
    let keep = |arg: Seq<char>| !crate::cli::is_global(arg);
    assert forall|i: int| 0 <= i < args.len() implies keep(#[trigger] args[i]) by {
        assert(args.contains(args[i]));
    }
    lemma_all_kept(args, keep);
}

/// The same operation, locked: an installation passes `--locked` on, in front of
/// its flags unless it is among them, and an upgrade does so for each package.
pub open spec fn as_locked(operation: Result<OperationView, ErrorView>) -> Result<
    OperationView,
    ErrorView,
> {
    match operation {
        Ok(OperationView::Install { packages, cargo_args, dry_run }) => Ok(
            OperationView::Install {
                packages,
                cargo_args: if cargo_args.contains("--locked"@) {
                    cargo_args
                } else {
                    seq!["--locked"@] + cargo_args
                },
                dry_run,
            },
        ),
        Ok(OperationView::Upgrade { dry_run, also_install, install_args, .. }) => Ok(
            OperationView::Upgrade { dry_run, locked: true, also_install, install_args },
        ),
        other => other,
    }
}

/// Every frontend takes these flags anywhere on the line: `--dry-run` makes it a
/// dry run and `--locked` locks it, and neither changes anything else; `--help`
/// and `-h` ask for help, whatever else the line holds. So does a line without
/// anything else.
pub proof fn global_flags_are_for_this(
    dialect: Dialect,
    before: Seq<Seq<char>>,
    after: Seq<Seq<char>>,
)
    ensures
        parsed(dialect, before + seq!["--dry-run"@] + after) == as_dry_run(
            parsed(dialect, before + after),
        ),
        parsed(dialect, before + seq!["--locked"@] + after) == as_locked(
            parsed(dialect, before + after),
        ),
        parsed(dialect, before + seq!["--help"@] + after) == helping(),
        parsed(dialect, before + seq!["-h"@] + after) == helping(),
        parsed(dialect, Seq::empty()) == helping(),
{
    let keep = |arg: Seq<char>| !crate::cli::is_global(arg);
    reveal_strlit("--dry-run");
    reveal_strlit("--locked");
    reveal_strlit("--help");
    reveal_strlit("-h");
    assert("--dry-run"@.len() == 9 && "--locked"@.len() == 8 && "--help"@.len() == 6 && "-h"@.len()
        == 2);
    crate::cli::lemma_dropped(before, "--dry-run"@, after, keep);
    crate::cli::lemma_dropped(before, "--locked"@, after, keep);
    lemma_inserted(before, "--dry-run"@, after);
    lemma_inserted(before, "--locked"@, after);
    lemma_inserted(before, "--help"@, after);
    lemma_inserted(before, "-h"@, after);
    let none = Seq::<Seq<char>>::empty();
    lemma_all_kept(none, keep);
    if let Ok(operation) = crate::cli::operation_of(
        dialect,
        crate::cli::without_globals(before + after),
    ) {
        if let OperationView::Install { cargo_args, .. } = operation {
            assert((seq!["--locked"@] + cargo_args)[0] == "--locked"@);
        }
    }
}

proof fn lemma_inserted(before: Seq<Seq<char>>, word: Seq<char>, after: Seq<Seq<char>>)
    ensures
        forall|other: Seq<char>| #[trigger]
            (before + seq![word] + after).contains(other) == (other == word || (before
                + after).contains(other)),
{
    let with = before + seq![word] + after;
    let without = before + after;
    let n = before.len() as int;
    assert(with[n] == word);
    assert forall|other: Seq<char>| #[trigger]
        with.contains(other) == (other == word || without.contains(other)) by {
        if with.contains(other) && other != word {
            let i = choose|i: int| 0 <= i < with.len() && with[i] == other;
            if i < n {
                assert(without[i] == other);
            } else {
                assert(without[i - 1] == other);
            }
        }
        if without.contains(other) {
            let i = choose|i: int| 0 <= i < without.len() && without[i] == other;
            if i < n {
                assert(with[i] == other);
            } else {
                assert(with[i + 1] == other);
            }
        }
    }
}

/// Each frontend is invoked as its own subcommand of Cargo, which is dropped from
/// the front of its arguments; a double dash behind the frontend's name is dropped
/// too. Anything else is left as it is.
pub proof fn frontends_get_their_own_arguments(dialect: Dialect, rest: Seq<Seq<char>>)
    ensures
        subcommand_of(Dialect::Native) == "pm"@,
        subcommand_of(Dialect::Pacman) == "pacman"@,
        subcommand_of(Dialect::Apt) == "apt"@,
        subcommand_of(Dialect::Dnf) == "dnf"@,
        preprocessed(seq!["--frontend"@, subcommand_of(dialect), "--"@] + rest) == preprocessed(
            seq!["--frontend"@, subcommand_of(dialect)] + (seq!["--"@] + rest),
        ),
        (rest.len() == 0 || (rest[0] != "--"@ && rest[0] != subcommand_of(dialect)))
            ==> preprocessed(seq!["--frontend"@, subcommand_of(dialect)] + rest) == Ok::<
            (Dialect, Seq<Seq<char>>),
            ErrorView,
        >((dialect, rest)),
        preprocessed(seq!["pm"@] + rest) == Ok::<(Dialect, Seq<Seq<char>>), ErrorView>(
            (Dialect::Native, rest),
        ),
{
    reveal_strlit("--frontend");
    reveal_strlit("--frontend=");
    reveal_strlit("pkgman");
    reveal_strlit("pm");
    let sub = subcommand_of(dialect);
    crate::launcher::subcommand_names_its_dialect(dialect);
    let line = seq!["--frontend"@, sub] + rest;
    assert(line[0] == "--frontend"@ && line[1] == sub);
    assert("--frontend"@.len() != "pkgman"@.len());
    assert(line.skip(2) =~= rest);
    assert(seq!["--frontend"@, sub, "--"@] + rest =~= seq!["--frontend"@, sub] + (seq!["--"@]
        + rest));
    let plain = seq!["pm"@] + rest;
    assert(plain[0] == "pm"@);
    assert("pm"@.len() == 2 && "pkgman"@.len() == 6 && "--frontend"@.len() == 10);
    assert(plain.skip(1) =~= rest);
}

/// The frontends go by these names and no others, and a missing or unknown name
/// is a usage error. Without a name the native frontend is meant.
pub proof fn frontends_go_by_their_names(name: Seq<char>, rest: Seq<Seq<char>>)
    ensures
        dialect_named(name) == if name == "pm"@ || name == "pkgman"@ {
            Some(Dialect::Native)
        } else if name == "pacman"@ {
            Some(Dialect::Pacman)
        } else if name == "apt"@ {
            Some(Dialect::Apt)
        } else if name == "dnf"@ {
            Some(Dialect::Dnf)
        } else {
            None
        },
        selected_frontend(seq!["--frontend"@, name] + rest) == (match dialect_named(name) {
            Some(dialect) => Ok(dialect),
            None => Err(ErrorView::Usage("unknown frontend '"@ + name + "'"@)),
        }),
        preprocessed(seq!["--frontend"@]) == Err::<(Dialect, Seq<Seq<char>>), ErrorView>(
            ErrorView::Usage("--frontend requires a frontend name"@),
        ),
        (rest.len() == 0 || (rest[0] != "--frontend"@ && rest[0] != "pkgman"@ && rest[0] != "pm"@
            && !"--frontend="@.is_prefix_of(rest[0]))) ==> preprocessed(rest) == Ok::<
            (Dialect, Seq<Seq<char>>),
            ErrorView,
        >((Dialect::Native, rest)),
{
    reveal_strlit("--frontend");
    reveal_strlit("pkgman");
    assert("--frontend"@.len() != "pkgman"@.len());
    assert((seq!["--frontend"@, name] + rest)[0] == "--frontend"@);
    assert((seq!["--frontend"@, name] + rest)[1] == name);
}

} // verus!
