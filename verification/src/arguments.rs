//! The argument handling that the frontends share.

use vstd::prelude::*;

use crate::error::{result_view, Error, ErrorView};
use crate::operation::{Operation, OperationView};
use crate::text::{chars_of, concat2, join, joined, same, starts_with, texts};

verus! {

/// Whether `arg` starts with a dash.
pub open spec fn dashed(arg: Seq<char>) -> bool {
    arg.len() > 0 && arg[0] == '-'
}

/// Whether `arg` is a flag: it starts with a dash and is more than that dash.
pub open spec fn is_flag_text(arg: Seq<char>) -> bool {
    dashed(arg) && arg != "-"@
}

/// Whether the argument after the flag `arg` is the flag's value, for
/// `cargo install` and `cargo uninstall`.
pub open spec fn takes_value(arg: Seq<char>) -> bool {
    ||| arg == "--features"@
    ||| arg == "-F"@
    ||| arg == "--bin"@
    ||| arg == "--example"@
    ||| arg == "--profile"@
    ||| arg == "--target"@
    ||| arg == "--root"@
    ||| arg == "--git"@
    ||| arg == "--branch"@
    ||| arg == "--tag"@
    ||| arg == "--rev"@
    ||| arg == "--path"@
    ||| arg == "--registry"@
    ||| arg == "--index"@
    ||| arg == "--version"@
    ||| arg == "--vers"@
    ||| arg == "--color"@
    ||| arg == "--jobs"@
    ||| arg == "-j"@
    ||| arg == "-Z"@
}

/// Packages and flags: what is put before is added in front.
pub open spec fn put_before(
    packages: Seq<Seq<char>>,
    flags: Seq<Seq<char>>,
    split: Result<(Seq<Seq<char>>, Seq<Seq<char>>), ErrorView>,
) -> Result<(Seq<Seq<char>>, Seq<Seq<char>>), ErrorView> {
    match split {
        Ok(pair) => Ok((packages + pair.0, flags + pair.1)),
        Err(error) => Err(error),
    }
}

/// The packages and the flags among `args`, each in order. A flag that takes a
/// value takes the next argument with it; everything behind `--` is a package.
pub open spec fn split_args(args: Seq<Seq<char>>) -> Result<
    (Seq<Seq<char>>, Seq<Seq<char>>),
    ErrorView,
>
    decreases args.len(),
{
    let none = Seq::<Seq<char>>::empty();
    if args.len() == 0 {
        Ok((none, none))
    } else if args[0] == "--"@ {
        Ok((args.skip(1), none))
    } else if !is_flag_text(args[0]) {
        put_before(seq![args[0]], none, split_args(args.skip(1)))
    } else if !takes_value(args[0]) {
        put_before(none, seq![args[0]], split_args(args.skip(1)))
    } else if args.len() == 1 {
        Err(ErrorView::Usage(args[0] + " requires a value"@))
    } else {
        put_before(none, seq![args[0], args[1]], split_args(args.skip(2)))
    }
}

/// Whether `flag` names the source of a package.
pub open spec fn is_source_flag(flag: Seq<char>) -> bool {
    ||| flag == "--git"@
    ||| flag == "--path"@
    ||| "--git="@.is_prefix_of(flag)
    ||| "--path="@.is_prefix_of(flag)
}

/// Whether one of `flags` names the source of a package.
pub open spec fn names_source(flags: Seq<Seq<char>>) -> bool {
    exists|i: int| 0 <= i < flags.len() && is_source_flag(#[trigger] flags[i])
}

/// The installation that `args` ask for.
pub open spec fn install_operation(args: Seq<Seq<char>>, dry_run: bool) -> Result<
    OperationView,
    ErrorView,
> {
    match split_args(args) {
        Ok(pair) => if pair.0.len() == 0 && !names_source(pair.1) {
            Err(ErrorView::Usage("no packages specified"@))
        } else {
            Ok(OperationView::Install { packages: pair.0, cargo_args: pair.1, dry_run })
        },
        Err(error) => Err(error),
    }
}

/// The removal that `args` ask for.
pub open spec fn remove_operation(args: Seq<Seq<char>>, dry_run: bool) -> Result<
    OperationView,
    ErrorView,
> {
    match split_args(args) {
        Ok(pair) => if pair.0.len() == 0 {
            Err(ErrorView::Usage("no packages specified"@))
        } else {
            Ok(OperationView::Remove { packages: pair.0, cargo_args: pair.1, dry_run })
        },
        Err(error) => Err(error),
    }
}

/// The arguments without a leading dash, in order.
pub open spec fn plain_args(args: Seq<Seq<char>>) -> Seq<Seq<char>> {
    args.filter(|arg: Seq<char>| !dashed(arg))
}

/// The arguments with a leading dash, in order.
pub open spec fn dashed_args(args: Seq<Seq<char>>) -> Seq<Seq<char>> {
    args.filter(|arg: Seq<char>| dashed(arg))
}

/// The upgrade that `args` ask for.
pub open spec fn upgrade_operation(
    args: Seq<Seq<char>>,
    dry_run: bool,
    locked: bool,
) -> OperationView {
    OperationView::Upgrade {
        dry_run,
        locked,
        also_install: plain_args(args),
        install_args: dashed_args(args),
    }
}

/// The search that `args` ask for.
pub open spec fn search_operation(args: Seq<Seq<char>>, command: Seq<char>) -> Result<
    OperationView,
    ErrorView,
> {
    if plain_args(args).len() == 0 {
        Err(ErrorView::Usage(command + " requires an argument"@))
    } else {
        Ok(OperationView::Search(joined(plain_args(args), " "@)))
    }
}

/// The package information that `args` ask for.
pub open spec fn info_operation(args: Seq<Seq<char>>, command: Seq<char>) -> Result<
    OperationView,
    ErrorView,
> {
    if plain_args(args).len() == 0 {
        Err(ErrorView::Usage(command + " requires an argument"@))
    } else {
        Ok(OperationView::Info(plain_args(args)))
    }
}

/// Whether `word` is one of `args`.
pub fn has_word(args: &[String], word: &str) -> (r: bool)
    ensures
        r == texts(args@).contains(word@),
{
    let ghost all = texts(args@);
    let mut i: usize = 0;
    while i < args.len()
        invariant
            i <= args@.len(),
            all == texts(args@),
            forall|j: int| 0 <= j < i ==> all[j] != word@,
        decreases args@.len() - i,
    {
        if same(args[i].as_str(), word) {
            assert(all[i as int] == word@);
            return true;
        }
        i = i + 1;
    }
    false
}

fn is_dashed(arg: &str) -> (r: bool)
    ensures
        r == dashed(arg@),
{
    let chars = chars_of(arg);
    chars.len() > 0 && chars[0] == '-'
}

/// Whether `arg` is a flag: it starts with a dash and is more than that dash.
pub fn is_flag(arg: &str) -> (r: bool)
    ensures
        r == is_flag_text(arg@),
{
    is_dashed(arg) && !same(arg, "-")
}

/// Whether the argument after the flag `arg` is the flag's value.
pub fn is_value_flag(arg: &str) -> (r: bool)
    ensures
        r == takes_value(arg@),
{
    same(arg, "--features") || same(arg, "-F") || same(arg, "--bin") || same(arg, "--example")
        || same(arg, "--profile") || same(arg, "--target") || same(arg, "--root") || same(
        arg,
        "--git",
    ) || same(arg, "--branch") || same(arg, "--tag") || same(arg, "--rev") || same(arg, "--path")
        || same(arg, "--registry") || same(arg, "--index") || same(arg, "--version") || same(
        arg,
        "--vers",
    ) || same(arg, "--color") || same(arg, "--jobs") || same(arg, "-j") || same(arg, "-Z")
}

/// Whether one of `flags` names the source of a package.
pub fn has_source_flag(flags: &[String]) -> (r: bool)
    ensures
        r == names_source(texts(flags@)),
{
    let ghost all = texts(flags@);
    let mut i: usize = 0;
    while i < flags.len()
        invariant
            i <= flags@.len(),
            all == texts(flags@),
            forall|j: int| 0 <= j < i ==> !is_source_flag(#[trigger] all[j]),
        decreases flags@.len() - i,
    {
        let flag = flags[i].as_str();
        if same(flag, "--git") || same(flag, "--path") || starts_with(flag, "--git=")
            || starts_with(flag, "--path=") {
            assert(is_source_flag(all[i as int]));
            return true;
        }
        i = i + 1;
    }
    false
}

/// The arguments with a leading dash, or those without.
fn args_by_dash(args: &[String], wanted: bool) -> (r: Vec<String>)
    ensures
        wanted ==> texts(r@) == dashed_args(texts(args@)),
        !wanted ==> texts(r@) == plain_args(texts(args@)),
{
    let ghost all = texts(args@);
    let ghost keep = if wanted {
        |arg: Seq<char>| dashed(arg)
    } else {
        |arg: Seq<char>| !dashed(arg)
    };
    let mut result: Vec<String> = Vec::new();
    assert(texts(result@) =~= all.take(0).filter(keep)) by {
        reveal(Seq::filter);
    }
    let mut i: usize = 0;
    while i < args.len()
        invariant
            i <= args@.len(),
            all == texts(args@),
            forall|arg: Seq<char>| #[trigger] keep(arg) == (dashed(arg) == wanted),
            texts(result@) == all.take(i as int).filter(keep),
        decreases args@.len() - i,
    {
        let ghost before = result@;
        proof {
            assert(all.take(i + 1) =~= all.take(i as int).push(all[i as int]));
            all.take(i as int).lemma_filter_push(all[i as int], keep);
        }
        if is_dashed(args[i].as_str()) == wanted {
            result.push(args[i].clone());
            assert(texts(result@) =~= texts(before).push(all[i as int]));
        }
        i = i + 1;
    }
    assert(all.take(i as int) =~= all);
    result
}

/// The packages and the flags among `args`, each in order.
pub fn split_packages_and_flags(args: &[String]) -> (r: Result<(Vec<String>, Vec<String>), Error>)
    ensures
        (match r {
            Ok(pair) => Ok((texts(pair.0@), texts(pair.1@))),
            Err(error) => Err(error@),
        }) == split_args(texts(args@)),
{
    let mut packages: Vec<String> = Vec::new();
    let mut flags: Vec<String> = Vec::new();
    let ghost all = texts(args@);
    let mut index: usize = 0;
    proof {
        assert(all.skip(0) =~= all);
        assert(texts(packages@) =~= Seq::<Seq<char>>::empty());
        assert(texts(flags@) =~= Seq::<Seq<char>>::empty());
        lemma_put_nothing(split_args(all));
    }
    while index < args.len()
        invariant
            index <= args@.len(),
            all == texts(args@),
            split_args(all) == put_before(
                texts(packages@),
                texts(flags@),
                split_args(all.skip(index as int)),
            ),
        decreases args@.len() - index,
    {
        let arg = &args[index];
        let ghost rest = all.skip(index as int);
        let ghost old_packages = texts(packages@);
        let ghost old_flags = texts(flags@);
        let ghost none = Seq::<Seq<char>>::empty();

        if same(arg.as_str(), "--") {
            let mut j: usize = index + 1;
            assert(texts(packages@) =~= old_packages + all.subrange(index + 1, j as int));
            while j < args.len()
                invariant
                    index < j <= args@.len(),
                    all == texts(args@),
                    texts(packages@) == old_packages + all.subrange(index + 1, j as int),
                decreases args@.len() - j,
            {
                let ghost now = packages@;
                packages.push(args[j].clone());
                assert(texts(packages@) =~= texts(now).push(all[j as int]));
                assert(all.subrange(index + 1, j + 1) =~= all.subrange(index + 1, j as int).push(
                    all[j as int],
                ));
                j = j + 1;
            }
            assert(rest.skip(1) =~= all.subrange(index + 1, j as int));
            assert(texts(flags@) + none =~= texts(flags@));
            return Ok((packages, flags));
        }
        if is_flag(arg.as_str()) {
            flags.push(arg.clone());
            assert(texts(flags@) =~= old_flags + seq![arg@]);
            if is_value_flag(arg.as_str()) {
                index = index + 1;
                if index >= args.len() {
                    return Err(Error::Usage(concat2(arg.as_str(), " requires a value")));
                }
                flags.push(args[index].clone());
                assert(texts(flags@) =~= old_flags + seq![arg@, all[index as int]]);
                assert(rest.skip(2) =~= all.skip(index + 1));
                proof {
                    lemma_put_twice(
                        old_packages,
                        old_flags,
                        none,
                        seq![arg@, all[index as int]],
                        split_args(all.skip(index + 1)),
                    );
                    assert(old_packages + none =~= texts(packages@));
                }
            } else {
                assert(rest.skip(1) =~= all.skip(index + 1));
                proof {
                    lemma_put_twice(
                        old_packages,
                        old_flags,
                        none,
                        seq![arg@],
                        split_args(all.skip(index + 1)),
                    );
                    assert(old_packages + none =~= texts(packages@));
                }
            }
            index = index + 1;
        } else {
            packages.push(arg.clone());
            proof {
                assert(texts(packages@) =~= old_packages + seq![arg@]);
                assert(rest.skip(1) =~= all.skip(index + 1));
                lemma_put_twice(
                    old_packages,
                    old_flags,
                    seq![arg@],
                    none,
                    split_args(all.skip(index + 1)),
                );
                assert(old_flags + none =~= texts(flags@));
            }
            index = index + 1;
        }
    }
    proof {
        let none = Seq::<Seq<char>>::empty();
        assert(texts(packages@) + none =~= texts(packages@));
        assert(texts(flags@) + none =~= texts(flags@));
    }
    Ok((packages, flags))
}

proof fn lemma_put_nothing(split: Result<(Seq<Seq<char>>, Seq<Seq<char>>), ErrorView>)
    ensures
        put_before(Seq::empty(), Seq::empty(), split) == split,
{
    if let Ok(pair) = split {
        assert(Seq::<Seq<char>>::empty() + pair.0 =~= pair.0);
        assert(Seq::<Seq<char>>::empty() + pair.1 =~= pair.1);
    }
}

proof fn lemma_put_twice(
    packages: Seq<Seq<char>>,
    flags: Seq<Seq<char>>,
    more_packages: Seq<Seq<char>>,
    more_flags: Seq<Seq<char>>,
    split: Result<(Seq<Seq<char>>, Seq<Seq<char>>), ErrorView>,
)
    ensures
        put_before(packages, flags, put_before(more_packages, more_flags, split)) == put_before(
            packages + more_packages,
            flags + more_flags,
            split,
        ),
{
    if let Ok(pair) = split {
        assert(packages + (more_packages + pair.0) =~= (packages + more_packages) + pair.0);
        assert(flags + (more_flags + pair.1) =~= (flags + more_flags) + pair.1);
    }
}

/// The installation that `args` ask for.
pub fn install_op(args: &[String], dry_run: bool) -> (r: Result<Operation, Error>)
    ensures
        result_view(r) == install_operation(texts(args@), dry_run),
{
    match split_packages_and_flags(args) {
        Ok((packages, cargo_args)) => {
            if packages.len() == 0 && !has_source_flag(cargo_args.as_slice()) {
                return Err(Error::Usage("no packages specified".to_string()));
            }
            Ok(Operation::Install { packages, cargo_args, dry_run })
        },
        Err(error) => Err(error),
    }
}

/// The removal that `args` ask for.
pub fn remove_op(args: &[String], dry_run: bool) -> (r: Result<Operation, Error>)
    ensures
        result_view(r) == remove_operation(texts(args@), dry_run),
{
    match split_packages_and_flags(args) {
        Ok((packages, cargo_args)) => {
            if packages.len() == 0 {
                return Err(Error::Usage("no packages specified".to_string()));
            }
            Ok(Operation::Remove { packages, cargo_args, dry_run })
        },
        Err(error) => Err(error),
    }
}

/// The upgrade that `args` ask for.
pub fn upgrade_op(args: &[String], dry_run: bool, locked: bool) -> (r: Operation)
    ensures
        r@ == upgrade_operation(texts(args@), dry_run, locked),
{
    Operation::Upgrade {
        dry_run,
        locked,
        also_install: args_by_dash(args, false),
        install_args: args_by_dash(args, true),
    }
}

/// The search that `args` ask for.
pub fn search_op(args: &[String], command: &str) -> (r: Result<Operation, Error>)
    ensures
        result_view(r) == search_operation(texts(args@), command@),
{
    let query = args_by_dash(args, false);
    if query.len() == 0 {
        return Err(Error::Usage(concat2(command, " requires an argument")));
    }
    Ok(Operation::Search(join(query.as_slice(), " ")))
}

/// The package information that `args` ask for.
pub fn info_op(args: &[String], command: &str) -> (r: Result<Operation, Error>)
    ensures
        result_view(r) == info_operation(texts(args@), command@),
{
    let packages = args_by_dash(args, false);
    if packages.len() == 0 {
        return Err(Error::Usage(concat2(command, " requires an argument")));
    }
    Ok(Operation::Info(packages))
}

/// Splitting loses no argument and adds none: packages and flags together are
/// the arguments, but for one `--` at most.
pub proof fn split_keeps_arguments(args: Seq<Seq<char>>)
    ensures
        split_args(args) matches Ok(pair) ==> {
            let kept = pair.0.to_multiset().add(pair.1.to_multiset());
            kept == args.to_multiset() || kept.insert("--"@) == args.to_multiset()
        },
    decreases args.len(),
{
    broadcast use vstd::seq_lib::group_to_multiset_ensures;

    let none = Seq::<Seq<char>>::empty();
    assert(none.to_multiset() =~= vstd::multiset::Multiset::empty());
    if args.len() == 0 {
        assert(args =~= none);
    } else if args[0] == "--"@ {
        assert(args =~= seq![args[0]] + args.skip(1));
        vstd::seq_lib::lemma_multiset_commutative(seq![args[0]], args.skip(1));
        lemma_single(args[0]);
        assert(args.skip(1).to_multiset().add(none.to_multiset()).insert("--"@)
            =~= args.to_multiset());
    } else if !is_flag_text(args[0]) || !takes_value(args[0]) {
        split_keeps_arguments(args.skip(1));
        assert(args =~= seq![args[0]] + args.skip(1));
        vstd::seq_lib::lemma_multiset_commutative(seq![args[0]], args.skip(1));
        if let Ok(pair) = split_args(args.skip(1)) {
            vstd::seq_lib::lemma_multiset_commutative(seq![args[0]], pair.0);
            vstd::seq_lib::lemma_multiset_commutative(seq![args[0]], pair.1);
            assert(none + pair.0 =~= pair.0);
            assert(none + pair.1 =~= pair.1);
            let inner = pair.0.to_multiset().add(pair.1.to_multiset());
            let one = seq![args[0]].to_multiset();
            assert((one.add(pair.0.to_multiset())).add(pair.1.to_multiset()) =~= one.add(inner));
            assert(pair.0.to_multiset().add(one.add(pair.1.to_multiset())) =~= one.add(inner));
            assert(one.add(inner.insert("--"@)) =~= one.add(inner).insert("--"@));
        }
    } else if args.len() > 1 {
        split_keeps_arguments(args.skip(2));
        let head = seq![args[0], args[1]];
        assert(args =~= head + args.skip(2));
        vstd::seq_lib::lemma_multiset_commutative(head, args.skip(2));
        if let Ok(pair) = split_args(args.skip(2)) {
            vstd::seq_lib::lemma_multiset_commutative(head, pair.1);
            assert(none + pair.0 =~= pair.0);
            let inner = pair.0.to_multiset().add(pair.1.to_multiset());
            let two = head.to_multiset();
            assert(pair.0.to_multiset().add(two.add(pair.1.to_multiset())) =~= two.add(inner));
            assert(two.add(inner.insert("--"@)) =~= two.add(inner).insert("--"@));
        }
    }
}

proof fn lemma_single(arg: Seq<char>)
    ensures
        seq![arg].to_multiset() == vstd::multiset::Multiset::empty().insert(arg),
{
    broadcast use vstd::seq_lib::group_to_multiset_ensures;

    let none = Seq::<Seq<char>>::empty();
    assert(seq![arg] =~= none.push(arg));
    assert(none.to_multiset() =~= vstd::multiset::Multiset::empty());
}

/// Flags are forwarded as they are: no package starts with a dash unless it
/// stands behind `--`, or is a dash alone.
pub proof fn packages_are_not_flags(args: Seq<Seq<char>>)
    requires
        !args.contains("--"@),
    ensures
        split_args(args) matches Ok(pair) ==> forall|i: int|
            0 <= i < pair.0.len() ==> !is_flag_text(#[trigger] pair.0[i]),
    decreases args.len(),
{
    if args.len() > 0 {
        assert(args[0] != "--"@);
        if !is_flag_text(args[0]) || !takes_value(args[0]) {
            lemma_skip_contains(args, 1);
            packages_are_not_flags(args.skip(1));
        } else if args.len() > 1 {
            lemma_skip_contains(args, 2);
            packages_are_not_flags(args.skip(2));
        }
    }
}

proof fn lemma_skip_contains(args: Seq<Seq<char>>, n: int)
    requires
        0 <= n <= args.len(),
        !args.contains("--"@),
    ensures
        !args.skip(n).contains("--"@),
{
    if args.skip(n).contains("--"@) {
        let i = choose|i: int| 0 <= i < args.skip(n).len() && args.skip(n)[i] == "--"@;
        assert(args[i + n] == "--"@);
    }
}

} // verus!
