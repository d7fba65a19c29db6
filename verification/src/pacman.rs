//! Pacman's clustered flags.

use vstd::prelude::*;

use crate::arguments::{
    info_op, info_operation, install_op, install_operation, remove_op, remove_operation, search_op,
    search_operation, split_args, split_packages_and_flags,
};
use crate::error::{result_view, Error, ErrorView};
use crate::operation::{Operation, OperationView};
use crate::text::{
    before_first, chars_of, concat3, lemma_before_first, same, strip_prefix, texts, until,
};

verus! {

/// The pacman options seen so far.
#[derive(Clone, Copy)]
pub struct PacmanFlags {
    /// `-S`, `--sync`.
    pub sync: bool,
    /// `-R`, `--remove`.
    pub remove: bool,
    /// `-Q`, `--query`.
    pub query: bool,
    /// `-y`, `--refresh`.
    pub refresh: bool,
    /// `-u`, `--sysupgrade`.
    pub sysupgrade: bool,
    /// `-s`, `--search`.
    pub search: bool,
    /// `-i`, `--info`.
    pub info: bool,
    /// `-e`, `--explicit`; accepted, every installed crate is explicit.
    pub explicit: bool,
    /// `-p`, `--print`, `--print-format`.
    pub dry_run: bool,
}

/// No option.
pub open spec fn no_flags() -> PacmanFlags {
    PacmanFlags {
        sync: false,
        remove: false,
        query: false,
        refresh: false,
        sysupgrade: false,
        search: false,
        info: false,
        explicit: false,
        dry_run: false,
    }
}

/// What an option does to the flags.
pub enum Effect {
    /// The flags with the option.
    Flags(PacmanFlags),
    /// The option asks for help, whatever follows.
    Help,
    /// There is no such option.
    Unsupported,
}

/// What the letter `c` in a cluster does to the flags. The letters that pacman
/// accepts next to the operations and that mean nothing here do nothing.
pub open spec fn letter_effect(flags: PacmanFlags, c: char) -> Effect {
    if c == 'S' {
        Effect::Flags(PacmanFlags { sync: true, ..flags })
    } else if c == 'R' {
        Effect::Flags(PacmanFlags { remove: true, ..flags })
    } else if c == 'Q' {
        Effect::Flags(PacmanFlags { query: true, ..flags })
    } else if c == 'y' {
        Effect::Flags(PacmanFlags { refresh: true, ..flags })
    } else if c == 'u' {
        Effect::Flags(PacmanFlags { sysupgrade: true, ..flags })
    } else if c == 's' {
        Effect::Flags(PacmanFlags { search: true, ..flags })
    } else if c == 'i' {
        Effect::Flags(PacmanFlags { info: true, ..flags })
    } else if c == 'e' {
        Effect::Flags(PacmanFlags { explicit: true, ..flags })
    } else if c == 'p' {
        Effect::Flags(PacmanFlags { dry_run: true, ..flags })
    } else if c == 'h' {
        Effect::Help
    } else if c == 'n' || c == 'c' || c == 'd' || c == 'w' || c == 'q' || c == 'v' || c == 'a' || c
        == 'l' || c == 'o' || c == 'k' || c == 't' || c == 'm' {
        Effect::Flags(flags)
    } else {
        Effect::Unsupported
    }
}

/// What the long option `--name` does to the flags.
pub open spec fn long_effect(flags: PacmanFlags, name: Seq<char>) -> Effect {
    if name == "sync"@ {
        Effect::Flags(PacmanFlags { sync: true, ..flags })
    } else if name == "remove"@ {
        Effect::Flags(PacmanFlags { remove: true, ..flags })
    } else if name == "query"@ {
        Effect::Flags(PacmanFlags { query: true, ..flags })
    } else if name == "refresh"@ {
        Effect::Flags(PacmanFlags { refresh: true, ..flags })
    } else if name == "sysupgrade"@ {
        Effect::Flags(PacmanFlags { sysupgrade: true, ..flags })
    } else if name == "search"@ {
        Effect::Flags(PacmanFlags { search: true, ..flags })
    } else if name == "info"@ {
        Effect::Flags(PacmanFlags { info: true, ..flags })
    } else if name == "explicit"@ {
        Effect::Flags(PacmanFlags { explicit: true, ..flags })
    } else if name == "print"@ || name == "print-format"@ {
        Effect::Flags(PacmanFlags { dry_run: true, ..flags })
    } else if name == "noconfirm"@ || name == "needed"@ || name == "quiet"@ || name == "verbose"@ {
        Effect::Flags(flags)
    } else if name == "help"@ {
        Effect::Help
    } else {
        Effect::Unsupported
    }
}

/// What reading pacman arguments comes to.
pub enum Scan {
    /// Every argument was accepted.
    Done { flags: PacmanFlags, positionals: Seq<Seq<char>> },
    /// An option asked for help.
    Help,
    /// An option, with its dashes, is not supported.
    Unsupported(Seq<char>),
}

/// Reads the letters of a cluster from left to right, up to the first one that
/// asks for help or is not supported.
pub open spec fn scan_cluster(
    flags: PacmanFlags,
    cluster: Seq<char>,
    positionals: Seq<Seq<char>>,
) -> Scan
    decreases cluster.len(),
{
    if cluster.len() == 0 {
        Scan::Done { flags, positionals }
    } else {
        match letter_effect(flags, cluster[0]) {
            Effect::Flags(next) => scan_cluster(next, cluster.skip(1), positionals),
            Effect::Help => Scan::Help,
            Effect::Unsupported => Scan::Unsupported("-"@ + seq![cluster[0]]),
        }
    }
}

/// Reads one argument.
pub open spec fn scan_arg(
    flags: PacmanFlags,
    positionals: Seq<Seq<char>>,
    arg: Seq<char>,
) -> Scan {
    if arg == "--"@ {
        Scan::Done { flags, positionals }
    } else if "--"@.is_prefix_of(arg) {
        let name = before_first(arg.skip(2), '=');
        match long_effect(flags, name) {
            Effect::Flags(next) => Scan::Done { flags: next, positionals },
            Effect::Help => Scan::Help,
            Effect::Unsupported => Scan::Unsupported("--"@ + name),
        }
    } else if "-"@.is_prefix_of(arg) && arg.len() > 1 {
        scan_cluster(flags, arg.skip(1), positionals)
    } else {
        Scan::Done { flags, positionals: positionals.push(arg) }
    }
}

/// Reads arguments from left to right, up to the first one that asks for help
/// or is not supported.
pub open spec fn scan(
    flags: PacmanFlags,
    positionals: Seq<Seq<char>>,
    args: Seq<Seq<char>>,
) -> Scan
    decreases args.len(),
{
    if args.len() == 0 {
        Scan::Done { flags, positionals }
    } else {
        match scan_arg(flags, positionals, args[0]) {
            Scan::Done { flags, positionals } => scan(flags, positionals, args.skip(1)),
            other => other,
        }
    }
}

/// The operation that `-S` stands for.
pub open spec fn sync_operation(flags: PacmanFlags, positionals: Seq<Seq<char>>) -> Result<
    OperationView,
    ErrorView,
> {
    if flags.search {
        search_operation(positionals, "-Ss"@)
    } else if flags.info {
        info_operation(positionals, "-Si"@)
    } else if flags.sysupgrade {
        match split_args(positionals) {
            Ok(pair) => Ok(
                OperationView::Upgrade {
                    dry_run: flags.dry_run,
                    locked: false,
                    also_install: pair.0,
                    install_args: pair.1,
                },
            ),
            Err(error) => Err(error),
        }
    } else if flags.refresh && positionals.len() == 0 {
        Ok(OperationView::CheckUpdates)
    } else {
        install_operation(positionals, flags.dry_run)
    }
}

/// The operation that `-Q` stands for.
pub open spec fn query_operation(flags: PacmanFlags, positionals: Seq<Seq<char>>) -> Result<
    OperationView,
    ErrorView,
> {
    if flags.info {
        info_operation(positionals, "-Qi"@)
    } else if flags.sysupgrade {
        Ok(OperationView::CheckUpdates)
    } else if flags.search {
        search_operation(positionals, "-Qs"@)
    } else if positionals.len() == 0 {
        Ok(OperationView::List { query: None })
    } else {
        Ok(OperationView::List { query: Some(positionals) })
    }
}

/// Whether more than one of `-S`, `-R` and `-Q` was given.
pub open spec fn conflicting(flags: PacmanFlags) -> bool {
    (flags.sync && flags.remove) || (flags.sync && flags.query) || (flags.remove && flags.query)
}

/// The operation that a pacman command line stands for.
pub open spec fn pacman_operation(args: Seq<Seq<char>>) -> Result<OperationView, ErrorView> {
    match scan(no_flags(), Seq::empty(), args) {
        Scan::Help => Ok(OperationView::Help),
        Scan::Unsupported(option) => Err(
            ErrorView::Usage("unsupported pacman option '"@ + option + "'"@),
        ),
        Scan::Done { flags, positionals } => if conflicting(flags) {
            Err(
                ErrorView::Usage("conflicting pacman operations (use only one of -S, -R, -Q)"@),
            )
        } else if flags.sync {
            sync_operation(flags, positionals)
        } else if flags.remove {
            remove_operation(positionals, flags.dry_run)
        } else if flags.query {
            query_operation(flags, positionals)
        } else {
            Err(ErrorView::Usage("no pacman operation specified (expected -S, -R, or -Q)"@))
        },
    }
}

/// How an option ends the reading of arguments.
enum Stop {
    Help,
    Unsupported(String),
}

fn apply_letter(flags: &mut PacmanFlags, c: char) -> (r: Option<Stop>)
    ensures
        match letter_effect(*old(flags), c) {
            Effect::Flags(next) => r is None && *final(flags) == next,
            Effect::Help => r == Some(Stop::Help),
            Effect::Unsupported => r matches Some(Stop::Unsupported(option)) && option@ == "-"@
                + seq![c],
        },
{
    if c == 'S' {
        flags.sync = true;
    } else if c == 'R' {
        flags.remove = true;
    } else if c == 'Q' {
        flags.query = true;
    } else if c == 'y' {
        flags.refresh = true;
    } else if c == 'u' {
        flags.sysupgrade = true;
    } else if c == 's' {
        flags.search = true;
    } else if c == 'i' {
        flags.info = true;
    } else if c == 'e' {
        flags.explicit = true;
    } else if c == 'p' {
        flags.dry_run = true;
    } else if c == 'h' {
        return Some(Stop::Help);
    } else if c == 'n' || c == 'c' || c == 'd' || c == 'w' || c == 'q' || c == 'v' || c == 'a' || c
        == 'l' || c == 'o' || c == 'k' || c == 't' || c == 'm' {
        // No-ops that real pacman accepts next to the operations we map.
    } else {
        let mut option = "-".to_string();
        option.push(c);
        assert(option@ =~= "-"@ + seq![c]);
        return Some(Stop::Unsupported(option));
    }
    None
}

fn apply_long(flags: &mut PacmanFlags, name: &str) -> (r: Option<Stop>)
    ensures
        match long_effect(*old(flags), name@) {
            Effect::Flags(next) => r is None && *final(flags) == next,
            Effect::Help => r == Some(Stop::Help),
            Effect::Unsupported => r matches Some(Stop::Unsupported(option)) && option@ == "--"@
                + name@,
        },
{
    if same(name, "sync") {
        flags.sync = true;
    } else if same(name, "remove") {
        flags.remove = true;
    } else if same(name, "query") {
        flags.query = true;
    } else if same(name, "refresh") {
        flags.refresh = true;
    } else if same(name, "sysupgrade") {
        flags.sysupgrade = true;
    } else if same(name, "search") {
        flags.search = true;
    } else if same(name, "info") {
        flags.info = true;
    } else if same(name, "explicit") {
        flags.explicit = true;
    } else if same(name, "print") || same(name, "print-format") {
        flags.dry_run = true;
    } else if same(name, "noconfirm") || same(name, "needed") || same(name, "quiet") || same(
        name,
        "verbose",
    ) {
        // Accepted; nothing here asks for confirmation or prints more or less.
    } else if same(name, "help") {
        return Some(Stop::Help);
    } else {
        return Some(Stop::Unsupported(crate::text::concat2("--", name)));
    }
    None
}

fn apply_cluster(flags: &mut PacmanFlags, arg: &str) -> (r: Option<Stop>)
    requires
        arg@.len() > 1,
    ensures
        forall|positionals: Seq<Seq<char>>|
            match #[trigger] scan_cluster(*old(flags), arg@.skip(1), positionals) {
                Scan::Done { flags: next, positionals: same } => r is None && *final(flags) == next
                    && same == positionals,
                Scan::Help => r == Some(Stop::Help),
                Scan::Unsupported(option) => r matches Some(Stop::Unsupported(text)) && text@
                    == option,
            },
{
    let chars = chars_of(arg);
    let ghost cluster = arg@.skip(1);
    assert(cluster.skip(0) =~= cluster);
    let mut i: usize = 1;
    while i < chars.len()
        invariant
            chars@ == arg@,
            cluster == arg@.skip(1),
            1 <= i <= chars@.len(),
            forall|positionals: Seq<Seq<char>>| #[trigger]
                scan_cluster(*old(flags), cluster, positionals) == scan_cluster(
                    *flags,
                    cluster.skip(i - 1),
                    positionals,
                ),
        decreases chars@.len() - i,
    {
        assert(cluster.skip(i - 1).skip(1) =~= cluster.skip(i as int));
        assert(cluster.skip(i - 1)[0] == chars@[i as int]);
        if let Some(stop) = apply_letter(flags, chars[i]) {
            return Some(stop);
        }
        i = i + 1;
    }
    None
}

pub fn parse_pacman(args: &[String]) -> (r: Result<Operation, Error>)
    ensures
        result_view(r) == pacman_operation(texts(args@)),
{
    let mut flags = PacmanFlags {
        sync: false,
        remove: false,
        query: false,
        refresh: false,
        sysupgrade: false,
        search: false,
        info: false,
        explicit: false,
        dry_run: false,
    };
    let mut positionals: Vec<String> = Vec::new();
    let ghost all = texts(args@);
    assert(all.skip(0) =~= all);
    assert(texts(positionals@) =~= Seq::<Seq<char>>::empty());
    let mut i: usize = 0;
    while i < args.len()
        invariant
            i <= args@.len(),
            all == texts(args@),
            scan(no_flags(), Seq::empty(), all) == scan(
                flags,
                texts(positionals@),
                all.skip(i as int),
            ),
        decreases args@.len() - i,
    {
        let arg = args[i].as_str();
        let ghost before = positionals@;
        let mut stop: Option<Stop> = None;
        proof {
            reveal_strlit("--");
            reveal_strlit("-");
            assert(all.skip(i as int).skip(1) =~= all.skip(i + 1));
        }
        if !same(arg, "--") {
            if let Some(long) = strip_prefix(arg, "--") {
                stop = apply_long(&mut flags, until(long, '='));
            } else if strip_prefix(arg, "-").is_some() && arg.unicode_len() > 1 {
                stop = apply_cluster(&mut flags, arg);
            } else {
                positionals.push(args[i].clone());
                assert(texts(positionals@) =~= texts(before).push(arg@));
            }
        }
        match stop {
            Some(Stop::Help) => return Ok(Operation::Help),
            Some(Stop::Unsupported(option)) => {
                return Err(
                    Error::Usage(concat3("unsupported pacman option '", option.as_str(), "'")),
                );
            },
            None => {},
        }
        i = i + 1;
    }

    if (flags.sync && flags.remove) || (flags.sync && flags.query) || (flags.remove
        && flags.query) {
        return Err(
            Error::Usage("conflicting pacman operations (use only one of -S, -R, -Q)".to_string()),
        );
    }
    if flags.sync {
        return parse_pacman_sync(flags, positionals);
    }
    if flags.remove {
        return remove_op(positionals.as_slice(), flags.dry_run);
    }
    if flags.query {
        return parse_pacman_query(flags, positionals);
    }
    Err(Error::Usage("no pacman operation specified (expected -S, -R, or -Q)".to_string()))
}

fn parse_pacman_sync(flags: PacmanFlags, positionals: Vec<String>) -> (r: Result<Operation, Error>)
    ensures
        result_view(r) == sync_operation(flags, texts(positionals@)),
{
    if flags.search {
        return search_op(positionals.as_slice(), "-Ss");
    }
    if flags.info {
        return info_op(positionals.as_slice(), "-Si");
    }
    if flags.sysupgrade {
        return match split_packages_and_flags(positionals.as_slice()) {
            Ok((packages, install_args)) => Ok(
                Operation::Upgrade {
                    dry_run: flags.dry_run,
                    locked: false,
                    also_install: packages,
                    install_args,
                },
            ),
            Err(error) => Err(error),
        };
    }
    if flags.refresh && positionals.len() == 0 {
        return Ok(Operation::CheckUpdates);
    }
    install_op(positionals.as_slice(), flags.dry_run)
}

fn parse_pacman_query(flags: PacmanFlags, positionals: Vec<String>) -> (r: Result<
    Operation,
    Error,
>)
    ensures
        result_view(r) == query_operation(flags, texts(positionals@)),
{
    if flags.info {
        return info_op(positionals.as_slice(), "-Qi");
    }
    if flags.sysupgrade {
        return Ok(Operation::CheckUpdates);
    }
    if flags.search {
        return search_op(positionals.as_slice(), "-Qs");
    }
    if positionals.len() == 0 {
        Ok(Operation::List { query: None })
    } else {
        Ok(Operation::List { query: Some(positionals) })
    }
}

pub(crate) proof fn lemma_cluster_splits(
    flags: PacmanFlags,
    first: Seq<char>,
    second: Seq<char>,
    positionals: Seq<Seq<char>>,
)
    ensures
        scan_cluster(flags, first + second, positionals) == (match scan_cluster(
            flags,
            first,
            positionals,
        ) {
            Scan::Done { flags, positionals } => scan_cluster(flags, second, positionals),
            stopped => stopped,
        }),
    decreases first.len(),
{
    if first.len() == 0 {
        assert(first + second =~= second);
    } else {
        assert((first + second)[0] == first[0]);
        assert((first + second).skip(1) =~= first.skip(1) + second);
        match letter_effect(flags, first[0]) {
            Effect::Flags(next) => lemma_cluster_splits(next, first.skip(1), second, positionals),
            _ => {},
        }
    }
}

pub(crate) proof fn lemma_scan_splits(
    flags: PacmanFlags,
    positionals: Seq<Seq<char>>,
    first: Seq<Seq<char>>,
    second: Seq<Seq<char>>,
)
    ensures
        scan(flags, positionals, first + second) == (match scan(flags, positionals, first) {
            Scan::Done { flags, positionals } => scan(flags, positionals, second),
            stopped => stopped,
        }),
    decreases first.len(),
{
    if first.len() == 0 {
        assert(first + second =~= second);
    } else {
        assert((first + second)[0] == first[0]);
        assert((first + second).skip(1) =~= first.skip(1) + second);
        match scan_arg(flags, positionals, first[0]) {
            Scan::Done { flags, positionals } => {
                lemma_scan_splits(flags, positionals, first.skip(1), second);
            },
            _ => {},
        }
    }
}

/// Whether `letters` can stand behind a dash as a cluster.
pub open spec fn is_cluster(letters: Seq<char>) -> bool {
    letters.len() > 0 && letters[0] != '-'
}

pub(crate) proof fn lemma_scan_cluster_arg(
    flags: PacmanFlags,
    positionals: Seq<Seq<char>>,
    letters: Seq<char>,
)
    requires
        is_cluster(letters),
    ensures
        scan_arg(flags, positionals, "-"@ + letters) == scan_cluster(flags, letters, positionals),
{
    reveal_strlit("-");
    reveal_strlit("--");
    let arg = "-"@ + letters;
    assert(arg[1] == letters[0]);
    assert("--"@[1] == '-');
    assert(!"--"@.is_prefix_of(arg)) by {
        if "--"@.is_prefix_of(arg) {
            assert("--"@[1] == arg.subrange(0, 2)[1]);
        }
    }
    assert("-"@.is_prefix_of(arg)) by {
        assert(arg.subrange(0, 1) =~= "-"@);
    }
    assert(arg.skip(1) =~= letters);
}

/// A cluster of options means the same as its parts, one after another:
/// `-Syu`, `-Sy -u` and `-S -y -u` are one operation.
pub proof fn clusters_may_be_split(
    before: Seq<Seq<char>>,
    first: Seq<char>,
    second: Seq<char>,
    after: Seq<Seq<char>>,
)
    requires
        is_cluster(first),
        is_cluster(second),
    ensures
        pacman_operation(before + seq!["-"@ + first + second] + after) == pacman_operation(
            before + seq!["-"@ + first, "-"@ + second] + after,
        ),
{
    let joint = seq!["-"@ + first + second];
    let apart = seq!["-"@ + first, "-"@ + second];
    assert("-"@ + first + second =~= "-"@ + (first + second));
    assert forall|flags: PacmanFlags, positionals: Seq<Seq<char>>| #[trigger]
        scan(flags, positionals, joint + after) == scan(flags, positionals, apart + after) by {
        lemma_scan_cluster_arg(flags, positionals, first + second);
        lemma_cluster_splits(flags, first, second, positionals);
        lemma_scan_cluster_arg(flags, positionals, first);
        assert((joint + after).skip(1) =~= after);
        assert((apart + after).skip(1) =~= seq!["-"@ + second] + after);
        assert((seq!["-"@ + second] + after).skip(1) =~= after);
        assert((joint + after)[0] == "-"@ + (first + second));
        assert((apart + after)[0] == "-"@ + first);
        assert((seq!["-"@ + second] + after)[0] == "-"@ + second);
        match scan_cluster(flags, first, positionals) {
            Scan::Done { flags, positionals } => {
                lemma_scan_cluster_arg(flags, positionals, second);
                let tail = seq!["-"@ + second] + after;
                assert(scan(flags, positionals, tail) == (match scan_arg(
                    flags,
                    positionals,
                    tail[0],
                ) {
                    Scan::Done { flags, positionals } => scan(flags, positionals, tail.skip(1)),
                    other => other,
                }));
            },
            _ => {},
        }
    }
    assert(before + joint + after =~= before + (joint + after));
    assert(before + apart + after =~= before + (apart + after));
    lemma_scan_splits(no_flags(), Seq::empty(), before, joint + after);
    lemma_scan_splits(no_flags(), Seq::empty(), before, apart + after);
}

/// The options of two sets together.
pub open spec fn united(left: PacmanFlags, right: PacmanFlags) -> PacmanFlags {
    PacmanFlags {
        sync: left.sync || right.sync,
        remove: left.remove || right.remove,
        query: left.query || right.query,
        refresh: left.refresh || right.refresh,
        sysupgrade: left.sysupgrade || right.sysupgrade,
        search: left.search || right.search,
        info: left.info || right.info,
        explicit: left.explicit || right.explicit,
        dry_run: left.dry_run || right.dry_run,
    }
}

/// A letter adds its own option to the ones that are set.
proof fn lemma_letter_adds(flags: PacmanFlags, c: char)
    requires
        letter_effect(no_flags(), c) is Flags,
    ensures
        letter_effect(flags, c) == Effect::Flags(
            united(flags, letter_effect(no_flags(), c)->Flags_0),
        ),
{
}

/// The order of options does not matter, and neither does giving one twice:
/// `-Suy` and `-Syyu` mean the same as `-Syu`.
pub proof fn option_order_does_not_matter(flags: PacmanFlags, first: char, second: char)
    requires
        letter_effect(flags, first) is Flags,
        letter_effect(flags, second) is Flags,
    ensures
        letter_effect(letter_effect(flags, first)->Flags_0, second) == letter_effect(
            letter_effect(flags, second)->Flags_0,
            first,
        ),
        letter_effect(letter_effect(flags, first)->Flags_0, first) == letter_effect(flags, first),
{
    lemma_letter_adds(flags, first);
    lemma_letter_adds(flags, second);
    lemma_letter_adds(letter_effect(flags, first)->Flags_0, second);
    lemma_letter_adds(letter_effect(flags, second)->Flags_0, first);
    lemma_letter_adds(letter_effect(flags, first)->Flags_0, first);
}

proof fn lemma_cluster_prints(
    flags: PacmanFlags,
    cluster: Seq<char>,
    positionals: Seq<Seq<char>>,
)
    requires
        flags.dry_run,
    ensures
        scan_cluster(flags, cluster, positionals) matches Scan::Done { flags, .. } ==> flags.dry_run,
    decreases cluster.len(),
{
    if cluster.len() > 0 {
        if let Effect::Flags(next) = letter_effect(flags, cluster[0]) {
            lemma_cluster_prints(next, cluster.skip(1), positionals);
        }
    }
}

proof fn lemma_arg_prints(flags: PacmanFlags, positionals: Seq<Seq<char>>, arg: Seq<char>)
    requires
        flags.dry_run || arg == "-p"@ || arg == "--print"@,
    ensures
        scan_arg(flags, positionals, arg) matches Scan::Done { flags, .. } ==> flags.dry_run,
{
    reveal_strlit("-");
    reveal_strlit("--");
    reveal_strlit("-p");
    reveal_strlit("--print");
    reveal_strlit("print");
    reveal_strlit("sync");
    reveal_strlit("remove");
    reveal_strlit("query");
    reveal_strlit("refresh");
    reveal_strlit("sysupgrade");
    reveal_strlit("search");
    reveal_strlit("info");
    reveal_strlit("explicit");
    if flags.dry_run {
        lemma_cluster_prints(flags, arg.skip(1), positionals);
    } else if arg == "-p"@ {
        assert(arg =~= "-"@ + seq!['p']);
        lemma_scan_cluster_arg(flags, positionals, seq!['p']);
        let next = letter_effect(flags, 'p')->Flags_0;
        assert(scan_cluster(flags, seq!['p'], positionals) == scan_cluster(
            next,
            seq!['p'].skip(1),
            positionals,
        ));
        lemma_cluster_prints(next, seq!['p'].skip(1), positionals);
    } else {
        assert("--"@.is_prefix_of(arg)) by {
            assert(arg.subrange(0, 2) =~= "--"@);
        }
        assert(arg.skip(2) =~= "print"@);
        lemma_before_first(arg.skip(2), '=', 5);
        assert("print"@.take(5) =~= "print"@);
        assert("print"@[0] == 'p' && "query"@[0] == 'q');
    }
}

proof fn lemma_scan_prints(
    flags: PacmanFlags,
    positionals: Seq<Seq<char>>,
    args: Seq<Seq<char>>,
)
    requires
        flags.dry_run || args.contains("-p"@) || args.contains("--print"@),
    ensures
        scan(flags, positionals, args) matches Scan::Done { flags, .. } ==> flags.dry_run,
    decreases args.len(),
{
    if args.len() > 0 {
        if flags.dry_run || args[0] == "-p"@ || args[0] == "--print"@ {
            lemma_arg_prints(flags, positionals, args[0]);
        } else {
            if args.contains("-p"@) {
                let i = choose|i: int| 0 <= i < args.len() && args[i] == "-p"@;
                assert(args.skip(1)[i - 1] == "-p"@);
            }
            if args.contains("--print"@) {
                let i = choose|i: int| 0 <= i < args.len() && args[i] == "--print"@;
                assert(args.skip(1)[i - 1] == "--print"@);
            }
        }
        if let Scan::Done { flags, positionals } = scan_arg(flags, positionals, args[0]) {
            lemma_scan_prints(flags, positionals, args.skip(1));
        }
    }
}

/// `-p` and `--print` make a pacman operation a dry run, wherever they stand.
pub proof fn print_is_a_dry_run(args: Seq<Seq<char>>)
    requires
        args.contains("-p"@) || args.contains("--print"@),
    ensures
        pacman_operation(args) matches Ok(operation) ==> match operation {
            OperationView::Install { dry_run, .. } => dry_run,
            OperationView::Remove { dry_run, .. } => dry_run,
            OperationView::Upgrade { dry_run, .. } => dry_run,
            _ => true,
        },
{
    lemma_scan_prints(no_flags(), Seq::empty(), args);
}

} // verus!
