//! Laws of pacman lines: what each letter and each long option is for.

use vstd::prelude::*;

use crate::error::ErrorView;
use crate::laws::commands::{all_words, is_word, lemma_words_alone};
use crate::operation::OperationView;
use crate::pacman::{
    letter_effect, long_effect, no_flags, pacman_operation, scan, scan_arg, scan_cluster, Effect,
    PacmanFlags, Scan,
};
use crate::text::joined;

verus! {

/// Whether a letter is one that pacman's operations take, other than the one for
/// help.
pub open spec fn known_letter(c: char) -> bool {
    ||| c == 'S'
    ||| c == 'R'
    ||| c == 'Q'
    ||| c == 'y'
    ||| c == 'u'
    ||| c == 's'
    ||| c == 'i'
    ||| c == 'e'
    ||| c == 'p'
    ||| c == 'n'
    ||| c == 'c'
    ||| c == 'd'
    ||| c == 'w'
    ||| c == 'q'
    ||| c == 'v'
    ||| c == 'a'
    ||| c == 'l'
    ||| c == 'o'
    ||| c == 'k'
    ||| c == 't'
    ||| c == 'm'
}

/// An operation on a line.
pub open spec fn done(operation: OperationView) -> Result<OperationView, ErrorView> {
    Ok(operation)
}

/// A usage error.
pub open spec fn misused(message: Seq<char>) -> Result<OperationView, ErrorView> {
    Err(ErrorView::Usage(message))
}

/// What a line of one cluster and some words asks for, by the letters that the
/// cluster holds.
pub open spec fn line_asks_for(letters: Seq<char>, words: Seq<Seq<char>>) -> Result<
    OperationView,
    ErrorView,
> {
    let (sync, remove, query) = (
        letters.contains('S'),
        letters.contains('R'),
        letters.contains('Q'),
    );
    let dry_run = letters.contains('p');
    if (sync && remove) || (sync && query) || (remove && query) {
        misused("conflicting pacman operations (use only one of -S, -R, -Q)"@)
    } else if sync && letters.contains('s') {
        if words.len() == 0 {
            misused("-Ss requires an argument"@)
        } else {
            done(OperationView::Search(joined(words, " "@)))
        }
    } else if sync && letters.contains('i') {
        if words.len() == 0 {
            misused("-Si requires an argument"@)
        } else {
            done(OperationView::Info(words))
        }
    } else if sync && letters.contains('u') {
        done(
            OperationView::Upgrade {
                dry_run,
                locked: false,
                also_install: words,
                install_args: Seq::empty(),
            },
        )
    } else if sync && words.len() > 0 {
        done(OperationView::Install { packages: words, cargo_args: Seq::empty(), dry_run })
    } else if sync && letters.contains('y') {
        done(OperationView::CheckUpdates)
    } else if sync {
        misused("no packages specified"@)
    } else if remove {
        if words.len() == 0 {
            misused("no packages specified"@)
        } else {
            done(OperationView::Remove { packages: words, cargo_args: Seq::empty(), dry_run })
        }
    } else if query && letters.contains('i') {
        if words.len() == 0 {
            misused("-Qi requires an argument"@)
        } else {
            done(OperationView::Info(words))
        }
    } else if query && letters.contains('u') {
        done(OperationView::CheckUpdates)
    } else if query && letters.contains('s') {
        if words.len() == 0 {
            misused("-Qs requires an argument"@)
        } else {
            done(OperationView::Search(joined(words, " "@)))
        }
    } else if query && words.len() == 0 {
        done(OperationView::List { query: None })
    } else if query {
        done(OperationView::List { query: Some(words) })
    } else {
        misused("no pacman operation specified (expected -S, -R, or -Q)"@)
    }
}

/// The letters of a cluster, wherever they stand in it, decide what is done with
/// the words behind it. With `S` and none of `s`, `i` and `u`, a line that names
/// packages installs exactly these, with or without `y`; `-Sy` alone checks for
/// updates.
pub proof fn letters_decide_the_operation(letters: Seq<char>, words: Seq<Seq<char>>)
    requires
        letters.len() > 0,
        forall|i: int| 0 <= i < letters.len() ==> known_letter(#[trigger] letters[i]),
        all_words(words),
    ensures
        pacman_operation(seq!["-"@ + letters] + words) == line_asks_for(letters, words),
{
    lemma_line(letters, words);
    lemma_plain_words(words);
    lemma_words_alone(words);
    lemma_missing_arguments();
    lemma_dispatch(letters, words, seq!["-"@ + letters] + words);
}

proof fn lemma_missing_arguments()
    ensures
        "-Ss"@ + " requires an argument"@ == "-Ss requires an argument"@,
        "-Si"@ + " requires an argument"@ == "-Si requires an argument"@,
        "-Qs"@ + " requires an argument"@ == "-Qs requires an argument"@,
        "-Qi"@ + " requires an argument"@ == "-Qi requires an argument"@,
{
    reveal_strlit("-Ss");
    reveal_strlit("-Si");
    reveal_strlit("-Qs");
    reveal_strlit("-Qi");
    reveal_strlit(" requires an argument");
    reveal_strlit("-Ss requires an argument");
    reveal_strlit("-Si requires an argument");
    reveal_strlit("-Qs requires an argument");
    reveal_strlit("-Qi requires an argument");
}

proof fn lemma_dispatch(letters: Seq<char>, words: Seq<Seq<char>>, line: Seq<Seq<char>>)
    requires
        scan(no_flags(), Seq::empty(), line) == (Scan::Done {
            flags: with_letters(no_flags(), letters),
            positionals: words,
        }),
        crate::arguments::plain_args(words) == words,
        crate::arguments::split_args(words) == Ok::<(Seq<Seq<char>>, Seq<Seq<char>>), ErrorView>(
            (words, Seq::empty()),
        ),
        "-Ss"@ + " requires an argument"@ == "-Ss requires an argument"@,
        "-Si"@ + " requires an argument"@ == "-Si requires an argument"@,
        "-Qs"@ + " requires an argument"@ == "-Qs requires an argument"@,
        "-Qi"@ + " requires an argument"@ == "-Qi requires an argument"@,
    ensures
        pacman_operation(line) == line_asks_for(letters, words),
{
    let none = Seq::<Seq<char>>::empty();
    assert(!crate::arguments::names_source(none));
}

/// With `-Sy`, as with `-S`, words are the packages to install, and no others;
/// `-Sy` alone checks for updates.
pub proof fn refresh_still_installs(words: Seq<Seq<char>>)
    requires
        all_words(words),
    ensures
        words.len() > 0 ==> pacman_operation(seq!["-Sy"@] + words) == done(
            OperationView::Install { packages: words, cargo_args: Seq::empty(), dry_run: false },
        ),
        words.len() > 0 ==> pacman_operation(seq!["-S"@] + words) == pacman_operation(
            seq!["-Sy"@] + words,
        ),
        pacman_operation(seq!["-Sy"@]) == done(OperationView::CheckUpdates),
        pacman_operation(seq!["-S"@]) == misused("no packages specified"@),
{
    reveal_strlit("-");
    reveal_strlit("-S");
    reveal_strlit("-Sy");
    let none = Seq::<Seq<char>>::empty();
    assert("-S"@ =~= "-"@ + seq!['S']);
    assert("-Sy"@ =~= "-"@ + seq!['S', 'y']);
    letters_decide_the_operation(seq!['S'], words);
    letters_decide_the_operation(seq!['S', 'y'], words);
    letters_decide_the_operation(seq!['S'], none);
    letters_decide_the_operation(seq!['S', 'y'], none);
    assert(seq!["-S"@] + none =~= seq!["-S"@]);
    assert(seq!["-Sy"@] + none =~= seq!["-Sy"@]);
    assert(seq!['S'][0] == 'S');
    assert(seq!['S', 'y'][0] == 'S' && seq!['S', 'y'][1] == 'y');
    assert(seq!['S'].contains('S') && seq!['S', 'y'].contains('S') && seq!['S', 'y'].contains('y'));
}

/// A dash alone is a word like any other: packages to install, to remove or to
/// list may be called that.
pub proof fn dash_is_a_word(words: Seq<Seq<char>>, letters: Seq<char>)
    requires
        letters.len() > 0,
        forall|i: int| 0 <= i < letters.len() ==> known_letter(#[trigger] letters[i]),
        forall|i: int| 0 <= i < words.len() ==> is_word(#[trigger] words[i]),
        words.len() > 0,
    ensures
        letters.contains('S') && !letters.contains('R') && !letters.contains('Q')
            && !letters.contains('s') && !letters.contains('i') && !letters.contains('u')
            ==> pacman_operation(seq!["-"@ + letters] + words) == done(
            OperationView::Install {
                packages: words,
                cargo_args: Seq::empty(),
                dry_run: letters.contains('p'),
            },
        ),
        letters.contains('R') && !letters.contains('S') && !letters.contains('Q')
            ==> pacman_operation(seq!["-"@ + letters] + words) == done(
            OperationView::Remove {
                packages: words,
                cargo_args: Seq::empty(),
                dry_run: letters.contains('p'),
            },
        ),
        letters.contains('Q') && !letters.contains('S') && !letters.contains('R')
            && !letters.contains('s') && !letters.contains('i') && !letters.contains('u')
            ==> pacman_operation(seq!["-"@ + letters] + words) == done(
            OperationView::List { query: Some(words) },
        ),
{
    lemma_line(letters, words);
    lemma_words_are_packages(words);
}

proof fn lemma_words_are_packages(words: Seq<Seq<char>>)
    requires
        forall|i: int| 0 <= i < words.len() ==> is_word(#[trigger] words[i]),
    ensures
        crate::arguments::split_args(words) == Ok::<(Seq<Seq<char>>, Seq<Seq<char>>), ErrorView>(
            (words, Seq::empty()),
        ),
    decreases words.len(),
{
    if words.len() == 0 {
        assert(words =~= Seq::<Seq<char>>::empty());
    } else {
        let rest = words.skip(1);
        assert forall|i: int| 0 <= i < rest.len() implies is_word(#[trigger] rest[i]) by {
            assert(rest[i] == words[i + 1]);
        }
        lemma_words_are_packages(rest);
        crate::laws::commands::words_are_packages(words[0], rest);
        assert(seq![words[0]] + rest =~= words);
    }
}

/// Words without dashes stay when those with dashes are taken out.
proof fn lemma_plain_words(words: Seq<Seq<char>>)
    requires
        all_words(words),
    ensures
        crate::arguments::plain_args(words) == words,
    decreases words.len(),
{
    reveal(Seq::filter);
    if words.len() > 0 {
        let before = words.drop_last();
        assert forall|i: int| 0 <= i < before.len() implies (#[trigger] before[i]).len() == 0
            || before[i][0] != '-' by {
            assert(before[i] == words[i]);
        }
        lemma_plain_words(before);
        assert(words[words.len() - 1] == words.last());
        assert(before.push(words.last()) =~= words);
    } else {
        assert(words =~= Seq::<Seq<char>>::empty());
    }
}

/// The flags that known letters add.
spec fn with_letters(flags: PacmanFlags, letters: Seq<char>) -> PacmanFlags {
    PacmanFlags {
        sync: flags.sync || letters.contains('S'),
        remove: flags.remove || letters.contains('R'),
        query: flags.query || letters.contains('Q'),
        refresh: flags.refresh || letters.contains('y'),
        sysupgrade: flags.sysupgrade || letters.contains('u'),
        search: flags.search || letters.contains('s'),
        info: flags.info || letters.contains('i'),
        explicit: flags.explicit || letters.contains('e'),
        dry_run: flags.dry_run || letters.contains('p'),
    }
}

proof fn lemma_letters(flags: PacmanFlags, letters: Seq<char>, positionals: Seq<Seq<char>>)
    requires
        forall|i: int| 0 <= i < letters.len() ==> known_letter(#[trigger] letters[i]),
    ensures
        scan_cluster(flags, letters, positionals) == (Scan::Done {
            flags: with_letters(flags, letters),
            positionals,
        }),
    decreases letters.len(),
{
    if letters.len() > 0 {
        let rest = letters.skip(1);
        assert(known_letter(letters[0]));
        assert forall|i: int| 0 <= i < rest.len() implies known_letter(#[trigger] rest[i]) by {
            assert(rest[i] == letters[i + 1]);
        }
        let next = letter_effect(flags, letters[0])->Flags_0;
        lemma_letters(next, rest, positionals);
        assert forall|c: char| #[trigger] letters.contains(c) == (letters[0] == c || rest.contains(
            c,
        )) by {
            if letters.contains(c) && letters[0] != c {
                let i = choose|i: int| 0 <= i < letters.len() && letters[i] == c;
                assert(rest[i - 1] == c);
            }
            if rest.contains(c) {
                let i = choose|i: int| 0 <= i < rest.len() && rest[i] == c;
                assert(letters[i + 1] == c);
            }
        }
        assert(with_letters(next, rest) == with_letters(flags, letters));
    }
}

proof fn lemma_words_scanned(
    flags: PacmanFlags,
    positionals: Seq<Seq<char>>,
    words: Seq<Seq<char>>,
)
    requires
        forall|i: int| 0 <= i < words.len() ==> is_word(#[trigger] words[i]),
    ensures
        scan(flags, positionals, words) == (Scan::Done { flags, positionals: positionals + words }),
    decreases words.len(),
{
    if words.len() == 0 {
        assert(positionals + words =~= positionals);
    } else {
        let rest = words.skip(1);
        assert forall|i: int| 0 <= i < rest.len() implies is_word(#[trigger] rest[i]) by {
            assert(rest[i] == words[i + 1]);
        }
        assert(is_word(words[0]));
        lemma_word_scanned(flags, positionals, words[0]);
        lemma_words_scanned(flags, positionals.push(words[0]), rest);
        assert(positionals.push(words[0]) + rest =~= positionals + words);
    }
}

proof fn lemma_word_scanned(flags: PacmanFlags, positionals: Seq<Seq<char>>, word: Seq<char>)
    requires
        is_word(word),
    ensures
        scan_arg(flags, positionals, word) == (Scan::Done {
            flags,
            positionals: positionals.push(word),
        }),
{
    reveal_strlit("-");
    reveal_strlit("--");
    assert("--"@.len() == 2 && "--"@[0] == '-');
    assert("-"@.len() == 1 && "-"@[0] == '-');
    if "--"@.is_prefix_of(word) {
        assert("--"@[0] == word.subrange(0, 2)[0]);
    }
    if "-"@.is_prefix_of(word) {
        assert("-"@[0] == word.subrange(0, 1)[0]);
    }
}

proof fn lemma_line(letters: Seq<char>, words: Seq<Seq<char>>)
    requires
        letters.len() > 0,
        forall|i: int| 0 <= i < letters.len() ==> known_letter(#[trigger] letters[i]),
        forall|i: int| 0 <= i < words.len() ==> is_word(#[trigger] words[i]),
    ensures
        scan(no_flags(), Seq::empty(), seq!["-"@ + letters] + words) == (Scan::Done {
            flags: with_letters(no_flags(), letters),
            positionals: words,
        }),
{
    let line = seq!["-"@ + letters] + words;
    let none = Seq::<Seq<char>>::empty();
    assert(known_letter(letters[0]));
    crate::pacman::lemma_scan_cluster_arg(no_flags(), none, letters);
    lemma_letters(no_flags(), letters, none);
    assert(line[0] == "-"@ + letters);
    assert(line.skip(1) =~= words);
    lemma_words_scanned(with_letters(no_flags(), letters), none, words);
    assert(none + words =~= words);
}

/// An option that is not written out on the command line as a word: it starts
/// with a dash and has more behind it.
pub open spec fn is_option(arg: Seq<char>) -> bool {
    arg.len() > 1 && arg[0] == '-'
}

/// Words and options may be mixed: it does not matter whether a word stands in
/// front of an option or behind it.
pub proof fn words_and_options_mix(
    before: Seq<Seq<char>>,
    word: Seq<char>,
    option: Seq<char>,
    after: Seq<Seq<char>>,
)
    requires
        is_word(word),
        is_option(option),
    ensures
        pacman_operation(before + seq![word, option] + after) == pacman_operation(
            before + seq![option, word] + after,
        ),
{
    let left = seq![word, option] + after;
    let right = seq![option, word] + after;
    assert forall|flags: PacmanFlags, positionals: Seq<Seq<char>>| #[trigger]
        scan(flags, positionals, left) == scan(flags, positionals, right) by {
        lemma_word_scanned(flags, positionals, word);
        lemma_option_scanned(flags, positionals, positionals.push(word), option);
        let left_rest = seq![option] + after;
        let right_rest = seq![word] + after;
        assert(left.skip(1) =~= left_rest);
        assert(right.skip(1) =~= right_rest);
        assert(left_rest.skip(1) =~= after);
        assert(right_rest.skip(1) =~= after);
        assert(left[0] == word && right[0] == option);
        assert(left_rest[0] == option && right_rest[0] == word);
        assert(scan(flags, positionals.push(word), left_rest) == (match scan_arg(
            flags,
            positionals.push(word),
            option,
        ) {
            Scan::Done { flags, positionals } => scan(flags, positionals, after),
            other => other,
        }));
        if let Scan::Done { flags: next, positionals: kept } = scan_arg(
            flags,
            positionals,
            option,
        ) {
            lemma_word_scanned(next, kept, word);
            assert(scan(next, kept, right_rest) == scan(next, kept.push(word), after));
        }
    }
    assert(before + seq![word, option] + after =~= before + left);
    assert(before + seq![option, word] + after =~= before + right);
    crate::pacman::lemma_scan_splits(no_flags(), Seq::empty(), before, left);
    crate::pacman::lemma_scan_splits(no_flags(), Seq::empty(), before, right);
}

/// What an option does has nothing to do with the words so far.
proof fn lemma_option_scanned(
    flags: PacmanFlags,
    first: Seq<Seq<char>>,
    second: Seq<Seq<char>>,
    option: Seq<char>,
)
    requires
        is_option(option),
    ensures
        match (scan_arg(flags, first, option), scan_arg(flags, second, option)) {
            (Scan::Done { flags: a, positionals: p }, Scan::Done { flags: b, positionals: q }) => a
                == b && p == first && q == second,
            (Scan::Help, Scan::Help) => true,
            (Scan::Unsupported(a), Scan::Unsupported(b)) => a == b,
            _ => false,
        },
{
    reveal_strlit("-");
    assert("-"@.is_prefix_of(option)) by {
        assert(option.subrange(0, 1) =~= "-"@);
    }
    lemma_cluster_scanned(flags, first, second, option.skip(1));
}

proof fn lemma_cluster_scanned(
    flags: PacmanFlags,
    first: Seq<Seq<char>>,
    second: Seq<Seq<char>>,
    letters: Seq<char>,
)
    ensures
        match (scan_cluster(flags, letters, first), scan_cluster(flags, letters, second)) {
            (Scan::Done { flags: a, positionals: p }, Scan::Done { flags: b, positionals: q }) => a
                == b && p == first && q == second,
            (Scan::Help, Scan::Help) => true,
            (Scan::Unsupported(a), Scan::Unsupported(b)) => a == b,
            _ => false,
        },
    decreases letters.len(),
{
    if letters.len() > 0 {
        if let Effect::Flags(next) = letter_effect(flags, letters[0]) {
            lemma_cluster_scanned(next, first, second, letters.skip(1));
        }
    }
}

/// The first letter for help ends the reading of a line, and so does the first
/// letter that pacman does not know, which is named in the error.
pub proof fn first_odd_letter_decides(
    letters: Seq<char>,
    odd: char,
    behind: Seq<char>,
    after: Seq<Seq<char>>,
)
    requires
        forall|i: int| 0 <= i < letters.len() ==> known_letter(#[trigger] letters[i]),
        !known_letter(odd),
        letters.len() > 0 || odd != '-',
    ensures
        pacman_operation(seq!["-"@ + (letters + seq![odd] + behind)] + after) == if odd == 'h' {
            done(OperationView::Help)
        } else {
            misused("unsupported pacman option '"@ + ("-"@ + seq![odd]) + "'"@)
        },
{
    let cluster = letters + seq![odd] + behind;
    let line = seq!["-"@ + cluster] + after;
    let none = Seq::<Seq<char>>::empty();
    let rest = seq![odd] + behind;
    assert(cluster =~= letters + rest);
    if letters.len() > 0 {
        assert(known_letter(letters[0]));
        assert(cluster[0] == letters[0]);
    }
    assert(rest[0] == odd);
    lemma_letters(no_flags(), letters, none);
    crate::pacman::lemma_cluster_splits(no_flags(), letters, rest, none);
    crate::pacman::lemma_scan_cluster_arg(no_flags(), none, cluster);
    assert(line[0] == "-"@ + cluster);
}

proof fn lemma_same_option(
    before: Seq<Seq<char>>,
    first: Seq<char>,
    second: Seq<char>,
    after: Seq<Seq<char>>,
)
    requires
        forall|flags: PacmanFlags, positionals: Seq<Seq<char>>| #[trigger]
            scan_arg(flags, positionals, first) == scan_arg(flags, positionals, second),
    ensures
        pacman_operation(before + seq![first] + after) == pacman_operation(
            before + seq![second] + after,
        ),
{
    let left = seq![first] + after;
    let right = seq![second] + after;
    assert forall|flags: PacmanFlags, positionals: Seq<Seq<char>>| #[trigger]
        scan(flags, positionals, left) == scan(flags, positionals, right) by {
        assert(left[0] == first && right[0] == second);
        assert(left.skip(1) =~= right.skip(1));
        assert(scan_arg(flags, positionals, first) == scan_arg(flags, positionals, second));
    }
    assert(before + seq![first] + after =~= before + left);
    assert(before + seq![second] + after =~= before + right);
    crate::pacman::lemma_scan_splits(no_flags(), Seq::empty(), before, left);
    crate::pacman::lemma_scan_splits(no_flags(), Seq::empty(), before, right);
}

proof fn lemma_no_option(before: Seq<Seq<char>>, option: Seq<char>, after: Seq<Seq<char>>)
    requires
        forall|flags: PacmanFlags, positionals: Seq<Seq<char>>| #[trigger]
            scan_arg(flags, positionals, option) == (Scan::Done { flags, positionals }),
    ensures
        pacman_operation(before + seq![option] + after) == pacman_operation(before + after),
{
    let left = seq![option] + after;
    assert forall|flags: PacmanFlags, positionals: Seq<Seq<char>>| #[trigger]
        scan(flags, positionals, left) == scan(flags, positionals, after) by {
        assert(left[0] == option);
        assert(left.skip(1) =~= after);
        assert(scan_arg(flags, positionals, option) == (Scan::Done { flags, positionals }));
    }
    assert(before + seq![option] + after =~= before + left);
    crate::pacman::lemma_scan_splits(no_flags(), Seq::empty(), before, left);
    crate::pacman::lemma_scan_splits(no_flags(), Seq::empty(), before, after);
}

proof fn lemma_long_scanned(
    flags: PacmanFlags,
    positionals: Seq<Seq<char>>,
    name: Seq<char>,
    tail: Seq<char>,
)
    requires
        name.len() > 0,
        !name.contains('='),
        tail.len() == 0 || tail[0] == '=',
    ensures
        scan_arg(flags, positionals, "--"@ + name + tail) == (match long_effect(flags, name) {
            Effect::Flags(next) => Scan::Done { flags: next, positionals },
            Effect::Help => Scan::Help,
            Effect::Unsupported => Scan::Unsupported("--"@ + name),
        }),
{
    reveal_strlit("--");
    let arg = "--"@ + name + tail;
    assert("--"@.is_prefix_of(arg)) by {
        assert(arg.subrange(0, 2) =~= "--"@);
    }
    assert(arg.skip(2) =~= name + tail);
    crate::text::lemma_before_first(name + tail, '=', name.len() as int);
    assert((name + tail).take(name.len() as int) =~= name);
}

/// A value behind a long option does not count, and a long option that pacman
/// does not know is named in the error.
pub proof fn long_options_go_by_their_names(
    before: Seq<Seq<char>>,
    name: Seq<char>,
    value: Seq<char>,
    after: Seq<Seq<char>>,
)
    requires
        name.len() > 0,
        !name.contains('='),
    ensures
        pacman_operation(before + seq!["--"@ + name + (seq!['='] + value)] + after)
            == pacman_operation(before + seq!["--"@ + name] + after),
        !known_name(name) ==> pacman_operation(seq!["--"@ + name] + after) == misused(
            "unsupported pacman option '"@ + ("--"@ + name) + "'"@,
        ),
{
    let long = "--"@ + name + (seq!['='] + value);
    let short = "--"@ + name;
    let none = Seq::<char>::empty();
    assert(short + none =~= short);
    assert forall|flags: PacmanFlags, positionals: Seq<Seq<char>>| #[trigger]
        scan_arg(flags, positionals, long) == scan_arg(flags, positionals, short) by {
        lemma_long_scanned(flags, positionals, name, seq!['='] + value);
        lemma_long_scanned(flags, positionals, name, none);
    }
    lemma_same_option(before, long, short, after);
    lemma_long_scanned(no_flags(), Seq::empty(), name, none);
    assert((seq![short] + after)[0] == short);
}

/// Whether a name is that of a long option.
pub open spec fn known_name(name: Seq<char>) -> bool {
    ||| name == "sync"@
    ||| name == "remove"@
    ||| name == "query"@
    ||| name == "refresh"@
    ||| name == "sysupgrade"@
    ||| name == "search"@
    ||| name == "info"@
    ||| name == "explicit"@
    ||| name == "print"@
    ||| name == "print-format"@
    ||| name == "noconfirm"@
    ||| name == "needed"@
    ||| name == "quiet"@
    ||| name == "verbose"@
    ||| name == "help"@
}

/// Each long option does what its letter does.
pub proof fn long_options_are_letters(before: Seq<Seq<char>>, after: Seq<Seq<char>>)
    ensures
        pacman_operation(before + seq!["--sync"@] + after) == pacman_operation(
            before + seq!["-S"@] + after,
        ),
        pacman_operation(before + seq!["--remove"@] + after) == pacman_operation(
            before + seq!["-R"@] + after,
        ),
        pacman_operation(before + seq!["--query"@] + after) == pacman_operation(
            before + seq!["-Q"@] + after,
        ),
        pacman_operation(before + seq!["--refresh"@] + after) == pacman_operation(
            before + seq!["-y"@] + after,
        ),
        pacman_operation(before + seq!["--sysupgrade"@] + after) == pacman_operation(
            before + seq!["-u"@] + after,
        ),
        pacman_operation(before + seq!["--search"@] + after) == pacman_operation(
            before + seq!["-s"@] + after,
        ),
        pacman_operation(before + seq!["--info"@] + after) == pacman_operation(
            before + seq!["-i"@] + after,
        ),
        pacman_operation(before + seq!["--explicit"@] + after) == pacman_operation(
            before + seq!["-e"@] + after,
        ),
        pacman_operation(before + seq!["--print"@] + after) == pacman_operation(
            before + seq!["-p"@] + after,
        ),
        pacman_operation(before + seq!["--print-format"@] + after) == pacman_operation(
            before + seq!["-p"@] + after,
        ),
        pacman_operation(before + seq!["--help"@] + after) == pacman_operation(
            before + seq!["-h"@] + after,
        ),
{
    lemma_long_names();
    assert(pacman_operation(before + seq!["--sync"@] + after) == pacman_operation(
        before + seq!["-S"@] + after,
    )) by {
        reveal_strlit("-");
        reveal_strlit("--");
        reveal_strlit("sync");
        reveal_strlit("--sync");
        reveal_strlit("-S");
        assert("--sync"@ =~= "--"@ + "sync"@);
        assert("-S"@ =~= "-"@ + seq!['S']);
        lemma_long_letter(before, "sync"@, 'S', after);
    }
    assert(pacman_operation(before + seq!["--remove"@] + after) == pacman_operation(
        before + seq!["-R"@] + after,
    )) by {
        reveal_strlit("-");
        reveal_strlit("--");
        reveal_strlit("remove");
        reveal_strlit("--remove");
        reveal_strlit("-R");
        assert("--remove"@ =~= "--"@ + "remove"@);
        assert("-R"@ =~= "-"@ + seq!['R']);
        lemma_long_letter(before, "remove"@, 'R', after);
    }
    assert(pacman_operation(before + seq!["--query"@] + after) == pacman_operation(
        before + seq!["-Q"@] + after,
    )) by {
        reveal_strlit("-");
        reveal_strlit("--");
        reveal_strlit("query");
        reveal_strlit("--query");
        reveal_strlit("-Q");
        assert("--query"@ =~= "--"@ + "query"@);
        assert("-Q"@ =~= "-"@ + seq!['Q']);
        lemma_long_letter(before, "query"@, 'Q', after);
    }
    assert(pacman_operation(before + seq!["--refresh"@] + after) == pacman_operation(
        before + seq!["-y"@] + after,
    )) by {
        reveal_strlit("-");
        reveal_strlit("--");
        reveal_strlit("refresh");
        reveal_strlit("--refresh");
        reveal_strlit("-y");
        assert("--refresh"@ =~= "--"@ + "refresh"@);
        assert("-y"@ =~= "-"@ + seq!['y']);
        lemma_long_letter(before, "refresh"@, 'y', after);
    }
    assert(pacman_operation(before + seq!["--sysupgrade"@] + after) == pacman_operation(
        before + seq!["-u"@] + after,
    )) by {
        reveal_strlit("-");
        reveal_strlit("--");
        reveal_strlit("sysupgrade");
        reveal_strlit("--sysupgrade");
        reveal_strlit("-u");
        assert("--sysupgrade"@ =~= "--"@ + "sysupgrade"@);
        assert("-u"@ =~= "-"@ + seq!['u']);
        lemma_long_letter(before, "sysupgrade"@, 'u', after);
    }
    assert(pacman_operation(before + seq!["--search"@] + after) == pacman_operation(
        before + seq!["-s"@] + after,
    )) by {
        reveal_strlit("-");
        reveal_strlit("--");
        reveal_strlit("search");
        reveal_strlit("--search");
        reveal_strlit("-s");
        assert("--search"@ =~= "--"@ + "search"@);
        assert("-s"@ =~= "-"@ + seq!['s']);
        lemma_long_letter(before, "search"@, 's', after);
    }
    assert(pacman_operation(before + seq!["--info"@] + after) == pacman_operation(
        before + seq!["-i"@] + after,
    )) by {
        reveal_strlit("-");
        reveal_strlit("--");
        reveal_strlit("info");
        reveal_strlit("--info");
        reveal_strlit("-i");
        assert("--info"@ =~= "--"@ + "info"@);
        assert("-i"@ =~= "-"@ + seq!['i']);
        lemma_long_letter(before, "info"@, 'i', after);
    }
    assert(pacman_operation(before + seq!["--explicit"@] + after) == pacman_operation(
        before + seq!["-e"@] + after,
    )) by {
        reveal_strlit("-");
        reveal_strlit("--");
        reveal_strlit("explicit");
        reveal_strlit("--explicit");
        reveal_strlit("-e");
        assert("--explicit"@ =~= "--"@ + "explicit"@);
        assert("-e"@ =~= "-"@ + seq!['e']);
        lemma_long_letter(before, "explicit"@, 'e', after);
    }
    assert(pacman_operation(before + seq!["--print"@] + after) == pacman_operation(
        before + seq!["-p"@] + after,
    )) by {
        reveal_strlit("-");
        reveal_strlit("--");
        reveal_strlit("print");
        reveal_strlit("--print");
        reveal_strlit("-p");
        assert("--print"@ =~= "--"@ + "print"@);
        assert("-p"@ =~= "-"@ + seq!['p']);
        lemma_long_letter(before, "print"@, 'p', after);
    }
    assert(pacman_operation(before + seq!["--print-format"@] + after) == pacman_operation(
        before + seq!["-p"@] + after,
    )) by {
        reveal_strlit("-");
        reveal_strlit("--");
        reveal_strlit("print-format");
        reveal_strlit("--print-format");
        reveal_strlit("-p");
        assert("--print-format"@ =~= "--"@ + "print-format"@);
        assert("-p"@ =~= "-"@ + seq!['p']);
        lemma_long_letter(before, "print-format"@, 'p', after);
    }
    assert(pacman_operation(before + seq!["--help"@] + after) == pacman_operation(
        before + seq!["-h"@] + after,
    )) by {
        reveal_strlit("-");
        reveal_strlit("--");
        reveal_strlit("help");
        reveal_strlit("--help");
        reveal_strlit("-h");
        assert("--help"@ =~= "--"@ + "help"@);
        assert("-h"@ =~= "-"@ + seq!['h']);
        lemma_long_letter(before, "help"@, 'h', after);
    }
}

proof fn lemma_long_letter(
    before: Seq<Seq<char>>,
    name: Seq<char>,
    letter: char,
    after: Seq<Seq<char>>,
)
    requires
        name.len() > 0,
        !name.contains('='),
        letter != '-',
        forall|flags: PacmanFlags| #[trigger]
            long_effect(flags, name) == letter_effect(flags, letter),
        letter_effect(no_flags(), letter) !is Unsupported,
    ensures
        pacman_operation(before + seq!["--"@ + name] + after) == pacman_operation(
            before + seq!["-"@ + seq![letter]] + after,
        ),
{
    let none = Seq::<char>::empty();
    let (long, short) = ("--"@ + name, "-"@ + seq![letter]);
    assert(long + none =~= long);
    assert(seq![letter].skip(1) =~= none);
    assert forall|flags: PacmanFlags, positionals: Seq<Seq<char>>| #[trigger]
        scan_arg(flags, positionals, long) == scan_arg(flags, positionals, short) by {
        lemma_long_scanned(flags, positionals, name, none);
        crate::pacman::lemma_scan_cluster_arg(flags, positionals, seq![letter]);
        assert(long_effect(flags, name) == letter_effect(flags, letter));
        reveal_with_fuel(scan_cluster, 2);
    }
    lemma_same_option(before, long, short, after);
}

/// These long options and a lone double dash are accepted and change nothing.
pub proof fn some_options_change_nothing(before: Seq<Seq<char>>, after: Seq<Seq<char>>)
    ensures
        pacman_operation(before + seq!["--noconfirm"@] + after) == pacman_operation(before + after),
        pacman_operation(before + seq!["--needed"@] + after) == pacman_operation(before + after),
        pacman_operation(before + seq!["--quiet"@] + after) == pacman_operation(before + after),
        pacman_operation(before + seq!["--verbose"@] + after) == pacman_operation(before + after),
        pacman_operation(before + seq!["--"@] + after) == pacman_operation(before + after),
{
    lemma_long_names();
    reveal_strlit("--");
    assert(pacman_operation(before + seq!["--noconfirm"@] + after) == pacman_operation(before + after)) by {
        reveal_strlit("noconfirm");
        reveal_strlit("--noconfirm");
        let none = Seq::<char>::empty();
        assert("--noconfirm"@ =~= "--"@ + "noconfirm"@ + none);
        assert forall|flags: PacmanFlags, positionals: Seq<Seq<char>>| #[trigger]
            scan_arg(flags, positionals, "--noconfirm"@) == (Scan::Done { flags, positionals }) by {
            lemma_long_scanned(flags, positionals, "noconfirm"@, none);
        }
        lemma_no_option(before, "--noconfirm"@, after);
    }
    assert(pacman_operation(before + seq!["--needed"@] + after) == pacman_operation(before + after)) by {
        reveal_strlit("needed");
        reveal_strlit("--needed");
        let none = Seq::<char>::empty();
        assert("--needed"@ =~= "--"@ + "needed"@ + none);
        assert forall|flags: PacmanFlags, positionals: Seq<Seq<char>>| #[trigger]
            scan_arg(flags, positionals, "--needed"@) == (Scan::Done { flags, positionals }) by {
            lemma_long_scanned(flags, positionals, "needed"@, none);
        }
        lemma_no_option(before, "--needed"@, after);
    }
    assert(pacman_operation(before + seq!["--quiet"@] + after) == pacman_operation(before + after)) by {
        reveal_strlit("quiet");
        reveal_strlit("--quiet");
        let none = Seq::<char>::empty();
        assert("--quiet"@ =~= "--"@ + "quiet"@ + none);
        assert forall|flags: PacmanFlags, positionals: Seq<Seq<char>>| #[trigger]
            scan_arg(flags, positionals, "--quiet"@) == (Scan::Done { flags, positionals }) by {
            lemma_long_scanned(flags, positionals, "quiet"@, none);
        }
        lemma_no_option(before, "--quiet"@, after);
    }
    assert(pacman_operation(before + seq!["--verbose"@] + after) == pacman_operation(before + after)) by {
        reveal_strlit("verbose");
        reveal_strlit("--verbose");
        let none = Seq::<char>::empty();
        assert("--verbose"@ =~= "--"@ + "verbose"@ + none);
        assert forall|flags: PacmanFlags, positionals: Seq<Seq<char>>| #[trigger]
            scan_arg(flags, positionals, "--verbose"@) == (Scan::Done { flags, positionals }) by {
            lemma_long_scanned(flags, positionals, "verbose"@, none);
        }
        lemma_no_option(before, "--verbose"@, after);
    }
    lemma_no_option(before, "--"@, after);
}

proof fn lemma_long_names()
    ensures
        "sync"@ != "remove"@,
        "sync"@ != "query"@,
        "sync"@ != "refresh"@,
        "sync"@ != "sysupgrade"@,
        "sync"@ != "search"@,
        "sync"@ != "info"@,
        "sync"@ != "explicit"@,
        "sync"@ != "print"@,
        "sync"@ != "print-format"@,
        "sync"@ != "noconfirm"@,
        "sync"@ != "needed"@,
        "sync"@ != "quiet"@,
        "sync"@ != "verbose"@,
        "sync"@ != "help"@,
        "remove"@ != "query"@,
        "remove"@ != "refresh"@,
        "remove"@ != "sysupgrade"@,
        "remove"@ != "search"@,
        "remove"@ != "info"@,
        "remove"@ != "explicit"@,
        "remove"@ != "print"@,
        "remove"@ != "print-format"@,
        "remove"@ != "noconfirm"@,
        "remove"@ != "needed"@,
        "remove"@ != "quiet"@,
        "remove"@ != "verbose"@,
        "remove"@ != "help"@,
        "query"@ != "refresh"@,
        "query"@ != "sysupgrade"@,
        "query"@ != "search"@,
        "query"@ != "info"@,
        "query"@ != "explicit"@,
        "query"@ != "print"@,
        "query"@ != "print-format"@,
        "query"@ != "noconfirm"@,
        "query"@ != "needed"@,
        "query"@ != "quiet"@,
        "query"@ != "verbose"@,
        "query"@ != "help"@,
        "refresh"@ != "sysupgrade"@,
        "refresh"@ != "search"@,
        "refresh"@ != "info"@,
        "refresh"@ != "explicit"@,
        "refresh"@ != "print"@,
        "refresh"@ != "print-format"@,
        "refresh"@ != "noconfirm"@,
        "refresh"@ != "needed"@,
        "refresh"@ != "quiet"@,
        "refresh"@ != "verbose"@,
        "refresh"@ != "help"@,
        "sysupgrade"@ != "search"@,
        "sysupgrade"@ != "info"@,
        "sysupgrade"@ != "explicit"@,
        "sysupgrade"@ != "print"@,
        "sysupgrade"@ != "print-format"@,
        "sysupgrade"@ != "noconfirm"@,
        "sysupgrade"@ != "needed"@,
        "sysupgrade"@ != "quiet"@,
        "sysupgrade"@ != "verbose"@,
        "sysupgrade"@ != "help"@,
        "search"@ != "info"@,
        "search"@ != "explicit"@,
        "search"@ != "print"@,
        "search"@ != "print-format"@,
        "search"@ != "noconfirm"@,
        "search"@ != "needed"@,
        "search"@ != "quiet"@,
        "search"@ != "verbose"@,
        "search"@ != "help"@,
        "info"@ != "explicit"@,
        "info"@ != "print"@,
        "info"@ != "print-format"@,
        "info"@ != "noconfirm"@,
        "info"@ != "needed"@,
        "info"@ != "quiet"@,
        "info"@ != "verbose"@,
        "info"@ != "help"@,
        "explicit"@ != "print"@,
        "explicit"@ != "print-format"@,
        "explicit"@ != "noconfirm"@,
        "explicit"@ != "needed"@,
        "explicit"@ != "quiet"@,
        "explicit"@ != "verbose"@,
        "explicit"@ != "help"@,
        "print"@ != "print-format"@,
        "print"@ != "noconfirm"@,
        "print"@ != "needed"@,
        "print"@ != "quiet"@,
        "print"@ != "verbose"@,
        "print"@ != "help"@,
        "print-format"@ != "noconfirm"@,
        "print-format"@ != "needed"@,
        "print-format"@ != "quiet"@,
        "print-format"@ != "verbose"@,
        "print-format"@ != "help"@,
        "noconfirm"@ != "needed"@,
        "noconfirm"@ != "quiet"@,
        "noconfirm"@ != "verbose"@,
        "noconfirm"@ != "help"@,
        "needed"@ != "quiet"@,
        "needed"@ != "verbose"@,
        "needed"@ != "help"@,
        "quiet"@ != "verbose"@,
        "quiet"@ != "help"@,
        "verbose"@ != "help"@,
{
    reveal_strlit("sync");
    reveal_strlit("remove");
    reveal_strlit("query");
    reveal_strlit("refresh");
    reveal_strlit("sysupgrade");
    reveal_strlit("search");
    reveal_strlit("info");
    reveal_strlit("explicit");
    reveal_strlit("print");
    reveal_strlit("print-format");
    reveal_strlit("noconfirm");
    reveal_strlit("needed");
    reveal_strlit("quiet");
    reveal_strlit("verbose");
    reveal_strlit("help");
    assert("sync"@.len() == 4);
    assert("remove"@.len() == 6);
    assert("query"@.len() == 5);
    assert("refresh"@.len() == 7);
    assert("sysupgrade"@.len() == 10);
    assert("search"@.len() == 6);
    assert("info"@.len() == 4);
    assert("explicit"@.len() == 8);
    assert("print"@.len() == 5);
    assert("print-format"@.len() == 12);
    assert("noconfirm"@.len() == 9);
    assert("needed"@.len() == 6);
    assert("quiet"@.len() == 5);
    assert("verbose"@.len() == 7);
    assert("help"@.len() == 4);
    assert("sync"@[0] == 's' && "info"@[0] == 'i');
    assert("sync"@[0] == 's' && "help"@[0] == 'h');
    assert("remove"@[0] == 'r' && "search"@[0] == 's');
    assert("remove"@[0] == 'r' && "needed"@[0] == 'n');
    assert("query"@[0] == 'q' && "print"@[0] == 'p');
    assert("query"@[2] == 'e' && "quiet"@[2] == 'i');
    assert("refresh"@[0] == 'r' && "verbose"@[0] == 'v');
    assert("search"@[0] == 's' && "needed"@[0] == 'n');
    assert("info"@[0] == 'i' && "help"@[0] == 'h');
    assert("print"@[0] == 'p' && "quiet"@[0] == 'q');
}

} // verus!
