//! Laws of what a run finds, does and says.

use vstd::prelude::*;

use crate::cargo::{call_outcome, cargo_outcome, info_outcome, CargoStatusView};
use crate::dialect::Dialect;
use crate::error::{exit_status, message_of, plural, shows, Error, ErrorView};
use crate::index::latest;
use crate::launcher::{failure_lines, forwarded};
use crate::listing::{
    info_call, named_package, named_packages, package_line, package_lines, package_names,
    registry_name_of, search_call, search_registry, selected_packages, with_registry,
};
use crate::operation::OperationView;
use crate::order::sorted;
use crate::packages::{
    replay_args, source_tag, InstalledPackage, InstalledPackageView, PackageSourceView,
};
use crate::registry::{resolved, RegistriesView};
use crate::run::{
    actions_of, after_action, after_actions, cargo_call, help_after, outcome_of_check,
    outcome_status, reports, started, ActionView, Failure, Outcome, RunView,
};
use crate::text::{byte_len, decimal, joined, opt_text, padded, texts};
use crate::updates::{
    collected, comes_to, failures_in, name_width, planned, problems_of, skipped_count,
    skipped_message, targets_of, update_line, update_lines, update_names, updates_in, warning_lines,
    worker_count, CheckedView, PackageUpdate, PackageUpdateView, TargetView,
};
use crate::upgrades::{
    announcement, batch_result, failed_in, goes_on, install_args, preview_lines, succeeded_in,
    summary_line, upgrade_outcome, AttemptView,
};
use crate::version::{newer, version_text, VersionView};

verus! {

/// Whether a lookup found a version that is newer than the installed one.
pub open spec fn found_newer(checked: CheckedView) -> bool {
    checked.result matches Ok(Some(version)) && newer(version, checked.package.version)
}

/// Whether an update is what a lookup found: it is for the package that was
/// looked up, with its own name, version and flags, and it carries the version
/// that was found and the name of the registry that was asked.
pub open spec fn is_update_of(update: PackageUpdateView, checked: CheckedView) -> bool {
    &&& update.name == checked.package.name
    &&& update.installed == checked.package.version
    &&& update.install == checked.package.install
    &&& update.registry == checked.registry.name
    &&& checked.result == Ok::<Option<VersionView>, Seq<char>>(Some(update.available))
}

/// Whether an update is what one of some lookups found, and newer.
pub open spec fn comes_from_one(update: PackageUpdateView, results: Seq<CheckedView>) -> bool {
    exists|i: int|
        0 <= i < results.len() && found_newer(#[trigger] results[i]) && is_update_of(
            update,
            results[i],
        )
}

/// There is exactly one update for each lookup that found a newer version, in the
/// order of the lookups, and no other: it keeps the package's own name, version
/// and flags, and carries the version found and the registry asked.
pub proof fn each_newer_version_is_one_update(results: Seq<CheckedView>)
    ensures
        updates_in(results).len() == results.filter(
            |checked: CheckedView| found_newer(checked),
        ).len(),
        forall|k: int|
            0 <= k < updates_in(results).len() ==> is_update_of(
                #[trigger] updates_in(results)[k],
                results.filter(|checked: CheckedView| found_newer(checked))[k],
            ),
        forall|k: int|
            0 <= k < updates_in(results).len() ==> comes_from_one(
                #[trigger] updates_in(results)[k],
                results,
            ),
        forall|i: int|
            0 <= i < results.len() && found_newer(#[trigger] results[i]) ==> exists|k: int|
                0 <= k < updates_in(results).len() && is_update_of(
                    #[trigger] updates_in(results)[k],
                    results[i],
                ),
    decreases results.len(),
{
    reveal(Seq::filter);
    let wanted = |checked: CheckedView| found_newer(checked);
    let updates = updates_in(results);
    let found = results.filter(wanted);
    if results.len() > 0 {
        let before = results.drop_last();
        let last = results.last();
        each_newer_version_is_one_update(before);
        let earlier = updates_in(before);
        let kept = before.filter(wanted);
        assert(found == if found_newer(last) {
            kept.push(last)
        } else {
            kept
        });
        let n = earlier.len() as int;
        assert forall|k: int| 0 <= k < updates.len() implies is_update_of(
            #[trigger] updates[k],
            found[k],
        ) by {
            if k < n {
                assert(updates[k] == earlier[k]);
                assert(found[k] == kept[k]);
            }
        }
        assert forall|k: int| 0 <= k < updates.len() implies comes_from_one(
            #[trigger] updates[k],
            results,
        ) by {
            if k < n {
                assert(updates[k] == earlier[k]);
                let i = choose|i: int|
                    0 <= i < before.len() && found_newer(#[trigger] before[i]) && is_update_of(
                        earlier[k],
                        before[i],
                    );
                assert(results[i] == before[i]);
            } else {
                assert(results[results.len() - 1] == last);
                assert(is_update_of(updates[k], last));
            }
        }
        assert forall|i: int|
            0 <= i < results.len() && found_newer(#[trigger] results[i]) implies exists|k: int|
            0 <= k < updates.len() && is_update_of(#[trigger] updates[k], results[i]) by {
            if i < before.len() {
                assert(results[i] == before[i]);
                let k = choose|k: int|
                    0 <= k < earlier.len() && is_update_of(#[trigger] earlier[k], before[i]);
                assert(updates[k] == earlier[k]);
            } else {
                assert(is_update_of(updates[n], last));
            }
        }
    }
}

/// The updates and failures of two lists of lookups are those of the first and
/// then those of the second. A lookup alone gives what it found or what went
/// wrong, never both.
pub proof fn lookups_report_in_turn(
    first: Seq<CheckedView>,
    second: Seq<CheckedView>,
    checked: CheckedView,
)
    ensures
        updates_in(first + second) == updates_in(first) + updates_in(second),
        failures_in(first + second) == failures_in(first) + failures_in(second),
        failures_in(seq![checked]) == match checked.result {
            Err(message) => seq![message],
            Ok(_) => Seq::empty(),
        },
        updates_in(seq![checked]).len() == if found_newer(checked) {
            1nat
        } else {
            0nat
        },
        found_newer(checked) ==> is_update_of(updates_in(seq![checked])[0], checked),
    decreases second.len(),
{
    assert(seq![checked].drop_last() =~= Seq::<CheckedView>::empty());
    assert(seq![checked].last() == checked);
    assert(updates_in(seq![checked].drop_last()) =~= Seq::<PackageUpdateView>::empty());
    assert(failures_in(seq![checked].drop_last()) =~= Seq::<Seq<char>>::empty());
    if second.len() == 0 {
        assert(first + second =~= first);
        assert(updates_in(first) + updates_in(second) =~= updates_in(first));
        assert(failures_in(first) + failures_in(second) =~= failures_in(first));
    } else {
        lookups_report_in_turn(first, second.drop_last(), checked);
        assert((first + second).drop_last() =~= first + second.drop_last());
        assert((first + second).last() == second.last());
        assert(updates_in(first + second) =~= updates_in(first) + updates_in(second));
        assert(failures_in(first + second) =~= failures_in(first) + failures_in(second));
    }
}

/// Packages are planned for one by one, in order. A package of a registry that
/// can be asked is looked up there; one whose registry cannot is a problem that
/// names it; any other is skipped and counted.
pub proof fn packages_are_planned_in_turn(
    first: Seq<InstalledPackageView>,
    second: Seq<InstalledPackageView>,
    package: InstalledPackageView,
    config: RegistriesView,
)
    ensures
        targets_of(first + second, config) == targets_of(first, config) + targets_of(
            second,
            config,
        ),
        problems_of(first + second, config) == problems_of(first, config) + problems_of(
            second,
            config,
        ),
        skipped_count(first + second) == skipped_count(first) + skipped_count(second),
        match package.source {
            PackageSourceView::Registry { raw } => {
                &&& skipped_count(seq![package]) == 0
                &&& match resolved(config, raw) {
                    Ok(registry) => targets_of(seq![package], config) == seq![
                        TargetView { package, registry },
                    ] && problems_of(seq![package], config).len() == 0,
                    Err(error) => targets_of(seq![package], config).len() == 0 && problems_of(
                        seq![package],
                        config,
                    ) == seq![package.name + ": "@ + message_of(error)],
                }
            },
            _ => {
                &&& skipped_count(seq![package]) == 1
                &&& targets_of(seq![package], config).len() == 0
                &&& problems_of(seq![package], config).len() == 0
            },
        },
    decreases second.len(),
{
    assert(seq![package].drop_last() =~= Seq::<InstalledPackageView>::empty());
    assert(seq![package].last() == package);
    assert(targets_of(seq![package].drop_last(), config) =~= Seq::<TargetView>::empty());
    assert(problems_of(seq![package].drop_last(), config) =~= Seq::<Seq<char>>::empty());
    assert(skipped_count(seq![package].drop_last()) == 0);
    if second.len() == 0 {
        assert(first + second =~= first);
        assert(targets_of(first, config) + targets_of(second, config) =~= targets_of(
            first,
            config,
        ));
        assert(problems_of(first, config) + problems_of(second, config) =~= problems_of(
            first,
            config,
        ));
    } else {
        packages_are_planned_in_turn(first, second.drop_last(), package, config);
        assert((first + second).drop_last() =~= first + second.drop_last());
        assert((first + second).last() == second.last());
        assert(targets_of(first + second, config) =~= targets_of(first, config) + targets_of(
            second,
            config,
        ));
        assert(problems_of(first + second, config) =~= problems_of(first, config) + problems_of(
            second,
            config,
        ));
    }
}

/// A plan fails exactly when some package of a registry cannot be looked up and
/// none can; the first problem is the error. Otherwise all that can be looked up
/// are, and the problems are kept.
pub proof fn plans_fail_when_nothing_can_be_asked(
    packages: Seq<InstalledPackageView>,
    config: RegistriesView,
)
    ensures
        ({
            let targets = targets_of(packages, config);
            let problems = problems_of(packages, config);
            &&& planned(packages, config) is Err == (targets.len() == 0 && problems.len() > 0)
            &&& planned(packages, config) matches Err(error) ==> error == ErrorView::Registry(
                problems[0],
            )
            &&& planned(packages, config) matches Ok(plan) ==> plan.0 == targets && plan.1
                == problems
        }),
{
}

/// A run's lookups fail as a whole exactly when there were some and each of them
/// failed; the first failure is the error. One lookup that succeeds is enough for
/// the updates to be told, with the failures beside them.
pub proof fn one_good_lookup_is_enough(results: Seq<CheckedView>)
    ensures
        (collected(results) is Err) == (results.len() > 0 && forall|i: int|
            0 <= i < results.len() ==> (#[trigger] results[i]).result is Err),
        collected(results) matches Err(error) ==> error == ErrorView::Registry(
            results[0].result->Err_0,
        ),
        collected(results) matches Ok(found) ==> found.0 == updates_in(results) && found.1
            == failures_in(results),
{
    lemma_failures(results);
    if results.len() > 0 && forall|i: int|
        0 <= i < results.len() ==> (#[trigger] results[i]).result is Err {
        crate::updates::first_failure_is_reported(results);
    }
}

proof fn lemma_failures(results: Seq<CheckedView>)
    ensures
        failures_in(results).len() <= results.len(),
        failures_in(results).len() == results.len() ==> forall|i: int|
            0 <= i < results.len() ==> (#[trigger] results[i]).result is Err,
    decreases results.len(),
{
    if results.len() > 0 {
        let before = results.drop_last();
        lemma_failures(before);
        if failures_in(results).len() == results.len() {
            assert forall|i: int| 0 <= i < results.len() implies (#[trigger] results[i]).result
                is Err by {
                if i < before.len() {
                    assert(before[i] == results[i]);
                }
            }
        }
    }
}

/// Nothing is said of packages that were skipped when there are none; otherwise
/// their number is named, one package in the singular.
pub proof fn skipped_packages_are_counted(count: nat)
    ensures
        skipped_message(0) is None,
        skipped_message(1) == Some(
            "warning: skipped "@ + decimal(1) + " package"@ + " not from a registry (git/path)"@,
        ),
        count > 1 ==> skipped_message(count) == Some(
            "warning: skipped "@ + decimal(count) + " package"@ + "s"@
                + " not from a registry (git/path)"@,
        ),
        plural(1) == Seq::<char>::empty(),
        count != 1 ==> plural(count) == seq!['s'],
{
    reveal_strlit("");
    reveal_strlit("s");
    assert(plural(1) =~= Seq::<char>::empty());
    assert(plural(count) =~= if count == 1 {
        Seq::<char>::empty()
    } else {
        seq!['s']
    });
    let start = "warning: skipped "@ + decimal(1) + " package"@;
    assert(start + plural(1) =~= start);
}

/// One worker does a single lookup, two share any larger number, and there is
/// always one.
pub proof fn two_workers_share_lookups(lookups: nat)
    ensures
        lookups <= 1 ==> worker_count(lookups) == 1,
        lookups >= 2 ==> worker_count(lookups) == 2,
{
}

/// What a lookup comes to: the newest version of the index file, among releases
/// only unless the installed version is itself a prerelease. What went wrong is
/// told with the package's name in front.
pub proof fn lookups_come_to_this(
    package: InstalledPackageView,
    body: Result<Option<String>, Error>,
    result: Result<Option<VersionView>, Seq<char>>,
)
    requires
        comes_to(package, body, result),
    ensures
        body matches Ok(text) ==> {
            let found = if package.version.pre.len() == 0 {
                latest(opt_text(text), false)
            } else {
                latest(opt_text(text), true)
            };
            &&& found matches Ok(version) ==> result == Ok::<Option<VersionView>, Seq<char>>(
                version,
            )
            &&& found matches Err(error) ==> result == Err::<Option<VersionView>, Seq<char>>(
                package.name + ": "@ + message_of(error),
            )
        },
        body matches Err(error) ==> result is Err && (!(error@ is Io) ==> result == Err::<
            Option<VersionView>,
            Seq<char>,
        >(package.name + ": "@ + message_of(error@))),
{
}

/// Each problem has a line of its own that warns of it, in order; where there is
/// one, an empty line follows the last.
pub proof fn problems_are_warned_of(problems: Seq<Seq<char>>)
    ensures
        warning_lines(problems).len() == if problems.len() == 0 {
            0nat
        } else {
            problems.len() + 1
        },
        forall|i: int|
            0 <= i < problems.len() ==> #[trigger] warning_lines(problems)[i] == "warning: "@
                + problems[i],
        problems.len() > 0 ==> warning_lines(problems).last().len() == 0,
{
    reveal_strlit("");
}

/// The width of some names is that of the longest: none takes more bytes, and one
/// takes just as many.
pub proof fn width_is_that_of_the_longest(names: Seq<Seq<char>>)
    ensures
        forall|i: int| 0 <= i < names.len() ==> byte_len(#[trigger] names[i]) <= name_width(names),
        names.len() == 0 ==> name_width(names) == 0,
        names.len() > 0 ==> exists|i: int|
            0 <= i < names.len() && byte_len(#[trigger] names[i]) == name_width(names),
    decreases names.len(),
{
    if names.len() > 0 {
        let before = names.drop_last();
        width_is_that_of_the_longest(before);
        assert forall|i: int| 0 <= i < names.len() implies byte_len(#[trigger] names[i])
            <= name_width(names) by {
            if i < before.len() {
                assert(names[i] == before[i]);
            }
        }
        assert(names[names.len() - 1] == names.last());
        if before.len() > 0 && byte_len(names.last()) <= name_width(before) {
            let i = choose|i: int|
                0 <= i < before.len() && byte_len(#[trigger] before[i]) == name_width(before);
            assert(names[i] == before[i]);
        }
    }
}

/// A version is written with its three numbers, a prerelease behind a dash and
/// build metadata behind a plus sign.
pub proof fn versions_are_written_in_parts(version: VersionView)
    ensures
        ({
            let bare = VersionView { pre: Seq::empty(), build: Seq::empty(), ..version };
            let pre = VersionView { build: Seq::empty(), ..version };
            &&& version_text(bare) == decimal(version.major) + "."@ + decimal(version.minor) + "."@
                + decimal(version.patch)
            &&& version.pre.len() > 0 ==> version_text(pre) == version_text(bare) + "-"@
                + version.pre
            &&& version.build.len() > 0 ==> version_text(version) == version_text(pre) + "+"@
                + version.build
            &&& version.pre.len() == 0 ==> version_text(pre) == version_text(bare)
            &&& version.build.len() == 0 ==> version_text(version) == version_text(pre)
        }),
{
    let bare = VersionView { pre: Seq::empty(), build: Seq::empty(), ..version };
    let pre = VersionView { build: Seq::empty(), ..version };
    assert(version_text(bare) =~= decimal(version.major) + "."@ + decimal(version.minor) + "."@
        + decimal(version.patch));
    if version.pre.len() > 0 {
        assert(version_text(pre) =~= version_text(bare) + "-"@ + version.pre);
    } else {
        assert(version_text(pre) =~= version_text(bare));
    }
    if version.build.len() > 0 {
        assert(version_text(version) =~= version_text(pre) + "+"@ + version.build);
    } else {
        assert(version_text(version) =~= version_text(pre));
    }
}

/// The line of an update names the package, the installed version and then the
/// available one, with the flags to replay in brackets where there are any.
pub proof fn updates_are_shown_with_both_versions(update: PackageUpdateView, width: nat)
    ensures
        ({
            let start = "  "@ + padded(update.name, width) + "  "@ + version_text(update.installed)
                + " -> "@ + version_text(update.available);
            let flags = replay_args(update.install);
            &&& flags.len() == 0 ==> update_line(update, width) == start
            &&& flags.len() > 0 ==> update_line(update, width) == start + "  ["@ + joined(
                flags,
                " "@,
            ) + "]"@
        }),
        announcement(update) == ":: upgrading "@ + update.name + " "@ + version_text(
            update.installed,
        ) + " -> "@ + version_text(update.available),
{
    let start = "  "@ + padded(update.name, width) + "  "@ + version_text(update.installed)
        + " -> "@ + version_text(update.available);
    let flags = replay_args(update.install);
    if flags.len() == 0 {
        assert(update_line(update, width) =~= start);
    } else {
        assert(update_line(update, width) =~= start + "  ["@ + joined(flags, " "@) + "]"@);
    }
}

/// The list of updates tells how many there are and then shows each, in order and
/// with all names filled up to the longest. Without updates it says that all is up
/// to date. A preview adds an empty line, and says if it was a dry run; only where
/// it was not, and there are updates, is anything upgraded.
pub proof fn update_list_shows_each(updates: Seq<PackageUpdateView>, dry_run: bool)
    ensures
        updates.len() == 0 ==> update_lines(updates) == seq![
            "All Cargo packages are up to date."@,
        ] && preview_lines(updates, dry_run) == update_lines(updates),
        updates.len() > 0 ==> {
            let lines = update_lines(updates);
            &&& lines.len() == updates.len() + 2
            &&& lines[0] == decimal(updates.len()) + " package"@ + plural(updates.len())
                + " can be upgraded:"@
            &&& lines[1].len() == 0
            &&& forall|i: int|
                0 <= i < updates.len() ==> #[trigger] lines[i + 2] == update_line(
                    updates[i],
                    name_width(update_names(updates)),
                )
            &&& goes_on(updates.len(), false)
            &&& preview_lines(updates, false) == lines + seq![""@]
            &&& preview_lines(updates, true) == lines + seq![
                ""@,
                "Dry run; no packages were upgraded."@,
            ]
        },
        !goes_on(0, dry_run),
        !goes_on(updates.len(), true),
        update_names(updates).len() == updates.len(),
        forall|i: int|
            0 <= i < updates.len() ==> #[trigger] update_names(updates)[i] == updates[i].name,
{
    reveal_strlit("");
    if updates.len() > 0 {
        let lines = update_lines(updates);
        assert(preview_lines(updates, false) =~= lines + seq![""@]);
        assert(preview_lines(updates, true) =~= lines + seq![
            ""@,
            "Dry run; no packages were upgraded."@,
        ]);
    }
}

/// An upgrade is a forced `cargo install` of exactly the version that was found,
/// locked if that is asked for and from the package's own registry, with the
/// recorded flags and the package last.
pub proof fn upgrade_installs_what_was_found(update: PackageUpdateView, registry: Seq<char>)
    ensures
        ({
            let start = seq![
                "install"@,
                "--force"@,
                "--version"@,
                "="@ + version_text(update.available),
            ];
            let end = replay_args(update.install) + seq![update.name];
            let public = PackageUpdateView { registry: None, ..update };
            let named = PackageUpdateView { registry: Some(registry), ..update };
            &&& install_args(public, false) == start + end
            &&& install_args(public, true) == start + seq!["--locked"@] + end
            &&& install_args(named, false) == start + seq!["--registry"@, registry] + end
            &&& install_args(named, true) == start + seq!["--locked"@, "--registry"@, registry]
                + end
        }),
{
    let start = seq![
        "install"@,
        "--force"@,
        "--version"@,
        "="@ + version_text(update.available),
    ];
    let end = replay_args(update.install) + seq![update.name];
    let public = PackageUpdateView { registry: None, ..update };
    let named = PackageUpdateView { registry: Some(registry), ..update };
    assert(install_args(public, false) =~= start + end);
    assert(install_args(public, true) =~= start + seq!["--locked"@] + end);
    assert(install_args(named, false) =~= start + seq!["--registry"@, registry] + end);
    assert(install_args(named, true) =~= start + seq!["--locked"@, "--registry"@, registry] + end);
}

/// A `cargo` process that succeeds is no error; one that fails or does not start
/// is one that names its subcommand and what went wrong, and for an upgrade the
/// package.
pub proof fn failed_processes_are_errors(
    command: Seq<char>,
    failure: Seq<char>,
    name: Seq<char>,
    message: Seq<char>,
)
    ensures
        cargo_outcome(command, failure, CargoStatusView::Ended { success: true }) == Ok::<
            (),
            ErrorView,
        >(()),
        cargo_outcome(command, failure, CargoStatusView::Ended { success: false }) == Err::<
            (),
            ErrorView,
        >(ErrorView::Cargo { command, detail: failure }),
        cargo_outcome(command, failure, CargoStatusView::NotStarted(message)) == Err::<
            (),
            ErrorView,
        >(ErrorView::Cargo { command, detail: message }),
        call_outcome(command, CargoStatusView::Ended { success: true }) == Ok::<(), ErrorView>(()),
        call_outcome(command, CargoStatusView::Ended { success: false }) == Err::<(), ErrorView>(
            ErrorView::Cargo { command, detail: "command failed"@ },
        ),
        call_outcome(command, CargoStatusView::NotStarted(message)) == Err::<(), ErrorView>(
            ErrorView::Cargo { command, detail: message },
        ),
        info_outcome(name, CargoStatusView::Ended { success: true }) == Ok::<(), ErrorView>(()),
        info_outcome(name, CargoStatusView::Ended { success: false }) == Err::<(), ErrorView>(
            ErrorView::Cargo { command: "info"@, detail: "failed for "@ + name },
        ),
        info_outcome(name, CargoStatusView::NotStarted(message)) == Err::<(), ErrorView>(
            ErrorView::Cargo { command: "info"@, detail: message },
        ),
        upgrade_outcome(name, CargoStatusView::Ended { success: true }) == Ok::<(), ErrorView>(()),
        upgrade_outcome(name, CargoStatusView::Ended { success: false }) == Err::<(), ErrorView>(
            ErrorView::Cargo { command: "install"@, detail: "failed to upgrade "@ + name },
        ),
        upgrade_outcome(name, CargoStatusView::NotStarted(message)) == Err::<(), ErrorView>(
            ErrorView::Cargo {
                command: "install"@,
                detail: "failed to start while upgrading "@ + name + ": "@ + message,
            },
        ),
{
}

/// Attempts are counted one by one: a success counts, and a failure is kept under
/// its name, in order.
pub proof fn attempts_are_counted_in_turn(
    first: Seq<AttemptView>,
    second: Seq<AttemptView>,
    attempt: AttemptView,
)
    ensures
        succeeded_in(first + second) == succeeded_in(first) + succeeded_in(second),
        failed_in(first + second) == failed_in(first) + failed_in(second),
        attempt.success ==> succeeded_in(seq![attempt]) == 1 && failed_in(seq![attempt]).len() == 0,
        !attempt.success ==> succeeded_in(seq![attempt]) == 0 && failed_in(seq![attempt]) == seq![
            attempt.name,
        ],
    decreases second.len(),
{
    assert(seq![attempt].drop_last() =~= Seq::<AttemptView>::empty());
    assert(seq![attempt].last() == attempt);
    assert(succeeded_in(seq![attempt].drop_last()) == 0);
    assert(failed_in(seq![attempt].drop_last()) =~= Seq::<Seq<char>>::empty());
    if second.len() == 0 {
        assert(first + second =~= first);
        assert(failed_in(first) + failed_in(second) =~= failed_in(first));
    } else {
        attempts_are_counted_in_turn(first, second.drop_last(), attempt);
        assert((first + second).drop_last() =~= first + second.drop_last());
        assert((first + second).last() == second.last());
        assert(failed_in(first + second) =~= failed_in(first) + failed_in(second));
    }
}

/// The summary of a batch tells how many packages were upgraded and, if some
/// failed, how many; where all failed there is none. Any failure makes the batch
/// an error that lists the failures.
pub proof fn batches_are_summed_up(attempts: Seq<AttemptView>)
    ensures
        ({
            let good = succeeded_in(attempts);
            let bad = failed_in(attempts);
            let start = "Upgraded "@ + decimal(good) + " package"@ + plural(good);
            &&& bad.len() == 0 ==> summary_line(attempts) == Some(start + "."@) && batch_result(
                attempts,
            ) is Ok
            &&& bad.len() > 0 && good > 0 ==> summary_line(attempts) == Some(
                start + "; "@ + decimal(bad.len()) + " failed."@,
            )
            &&& bad.len() > 0 && good == 0 ==> summary_line(attempts) is None
            &&& bad.len() > 0 ==> batch_result(attempts) == Err::<(), ErrorView>(
                ErrorView::Upgrade { succeeded: good, failed: bad },
            )
        }),
{
}

/// What each operation comes down to: one `cargo install` or `cargo uninstall`
/// with all flags in front of all packages, which a dry run only shows; a check, a
/// search, a list or help; information for each package in turn; an upgrade and
/// then, for packages that are named, one installation.
pub proof fn operations_come_down_to_actions(
    packages: Seq<Seq<char>>,
    flags: Seq<Seq<char>>,
    dry_run: bool,
    locked: bool,
    query: Option<Seq<Seq<char>>>,
    text: Seq<char>,
)
    ensures
        actions_of(OperationView::Install { packages, cargo_args: flags, dry_run: false }) == seq![
            ActionView::Cargo {
                command: "install"@,
                args: seq!["install"@] + flags + packages,
            },
        ],
        actions_of(OperationView::Install { packages, cargo_args: flags, dry_run: true }) == seq![
            ActionView::Print(
                "Would run: "@ + joined(seq!["cargo"@, "install"@] + flags + packages, " "@),
            ),
        ],
        actions_of(OperationView::Remove { packages, cargo_args: flags, dry_run: false }) == seq![
            ActionView::Cargo {
                command: "uninstall"@,
                args: seq!["uninstall"@] + flags + packages,
            },
        ],
        actions_of(OperationView::Remove { packages, cargo_args: flags, dry_run: true }) == seq![
            ActionView::Print(
                "Would run: "@ + joined(seq!["cargo"@, "uninstall"@] + flags + packages, " "@),
            ),
        ],
        actions_of(OperationView::CheckUpdates) == seq![ActionView::CheckUpdates],
        actions_of(OperationView::Search(text)) == seq![ActionView::Search(text)],
        actions_of(OperationView::List { query }) == seq![ActionView::List(query)],
        actions_of(OperationView::Help) == seq![ActionView::Help],
        actions_of(OperationView::Info(packages)).len() == packages.len(),
        forall|i: int|
            0 <= i < packages.len() ==> #[trigger] actions_of(OperationView::Info(packages))[i]
                == ActionView::Info(packages[i]),
        actions_of(
            OperationView::Upgrade {
                dry_run,
                locked,
                also_install: Seq::empty(),
                install_args: flags,
            },
        ) == seq![ActionView::Upgrade { dry_run, locked }],
        packages.len() > 0 ==> actions_of(
            OperationView::Upgrade {
                dry_run,
                locked,
                also_install: packages,
                install_args: flags,
            },
        ) == seq![ActionView::Upgrade { dry_run, locked }] + actions_of(
            OperationView::Install {
                packages,
                cargo_args: if locked && !flags.contains("--locked"@) {
                    seq!["--locked"@] + flags
                } else {
                    flags
                },
                dry_run,
            },
        ),
{
    let install = seq!["install"@] + flags + packages;
    assert(seq!["cargo"@] + install =~= seq!["cargo"@, "install"@] + flags + packages);
    let uninstall = seq!["uninstall"@] + flags + packages;
    assert(seq!["cargo"@] + uninstall =~= seq!["cargo"@, "uninstall"@] + flags + packages);
    let upgrade = OperationView::Upgrade {
        dry_run,
        locked,
        also_install: packages,
        install_args: flags,
    };
    if packages.len() > 0 {
        let cargo_args = if locked && !flags.contains("--locked"@) {
            seq!["--locked"@] + flags
        } else {
            flags
        };
        let call = cargo_call("install"@, cargo_args, packages, dry_run);
        assert(actions_of(upgrade) =~= seq![ActionView::Upgrade { dry_run, locked }] + seq![call]);
    }
}

/// A run starts with nothing done and success, and goes from action to action.
/// Only a check for updates changes the outcome, and only with dnf, where found
/// updates are told apart.
pub proof fn runs_go_from_action_to_action(
    dialect: Dialect,
    run: RunView,
    updates: nat,
    error: ErrorView,
    result: Result<nat, ErrorView>,
    rest: Seq<Result<nat, ErrorView>>,
)
    ensures
        started(dialect, run.actions).done == 0,
        started(dialect, run.actions).dialect == dialect,
        started(dialect, run.actions).actions == run.actions,
        started(dialect, run.actions).outcome == Outcome::Success,
        outcome_of_check(Dialect::Dnf, 0) == Outcome::Success,
        updates > 0 ==> outcome_of_check(Dialect::Dnf, updates) == Outcome::UpdatesAvailable,
        dialect != Dialect::Dnf ==> outcome_of_check(dialect, updates) == Outcome::Success,
        after_action(run, Err(error)) == Err::<RunView, ErrorView>(error),
        after_action(run, Ok(updates)) matches Ok(next) && {
            &&& next.done == run.done + 1
            &&& next.actions == run.actions
            &&& next.dialect == run.dialect
            &&& run.actions[run.done as int] == ActionView::CheckUpdates ==> next.outcome
                == outcome_of_check(run.dialect, updates)
            &&& run.actions[run.done as int] != ActionView::CheckUpdates ==> next.outcome
                == run.outcome
        },
        after_actions(run, Seq::empty()) == Ok::<RunView, ErrorView>(run),
        after_actions(run, seq![result] + rest) == match after_action(run, result) {
            Ok(next) => after_actions(next, rest),
            Err(error) => Err(error),
        },
{
    assert((seq![result] + rest).skip(1) =~= rest);
}

/// What is said of each error. Texts are kept as they are.
pub proof fn errors_are_told_like_this(
    text: Seq<char>,
    command: Seq<char>,
    count: nat,
    failed: Seq<Seq<char>>,
)
    ensures
        message_of(ErrorView::Usage(text)) == text,
        message_of(ErrorView::Config(text)) == text,
        message_of(ErrorView::Registry(text)) == text,
        message_of(ErrorView::Utf8) == "argument is not valid UTF-8"@,
        message_of(ErrorView::Cargo { command, detail: text }) == "cargo "@ + command + ": "@
            + text,
        message_of(ErrorView::Upgrade { succeeded: count, failed }) == "upgraded "@ + decimal(count)
            + " package"@ + plural(count) + "; failed: "@ + joined(failed, ", "@),
        message_of(ErrorView::NotInstalled(text)) == "package '"@ + text + "' is not installed"@,
{
}

/// A failed run shows its error behind the word `error`, then an empty line if
/// help follows, and exits with 2 after a usage error and with 1 after any other.
/// An I/O error is told with its context in front.
pub proof fn failures_are_reported(
    error: ErrorView,
    help: Option<Dialect>,
    failure: Failure,
    message: Seq<char>,
)
    ensures
        reports(error, help, failure) ==> {
            &&& failure.help == help
            &&& error is Usage ==> failure.code == 2
            &&& !(error is Usage) ==> failure.code == 1
            &&& texts(failure.lines@).len() == if help is Some {
                2nat
            } else {
                1nat
            }
            &&& help is Some ==> texts(failure.lines@)[1].len() == 0
            &&& !(error is Io) ==> texts(failure.lines@)[0] == "error: "@ + message_of(error)
            &&& error matches ErrorView::Io { context, .. } ==> exists|shown: Seq<char>|
                texts(failure.lines@)[0] == "error: "@ + (context + ": "@ + shown)
        },
        shows(error, message) && !(error is Io) ==> message == message_of(error),
{
    reveal_strlit("");
    if reports(error, help, failure) {
        let told = choose|told: Seq<char>| #[trigger]
            shows(error, told) && texts(failure.lines@) == (if help is Some {
                seq!["error: "@ + told, ""@]
            } else {
                seq!["error: "@ + told]
            });
        if let ErrorView::Io { context, source } = error {
            let shown = choose|shown: String|
                {
                    &&& #[trigger] vstd::string::to_string_from_display_ensures(&source, shown)
                    &&& told == context + ": "@ + shown@
                };
            assert(texts(failure.lines@)[0] == "error: "@ + (context + ": "@ + shown@));
        }
    }
}

/// The exit status tells what became of a run: 0 of one that succeeded, 100 of a
/// check with dnf that found updates, 2 of a usage error and 1 of any other. Help
/// follows usage errors only. A launcher forwards the status where it fits.
pub proof fn exit_statuses_tell_what_happened(
    error: ErrorView,
    dialect: Option<Dialect>,
    code: i32,
    message: Seq<char>,
)
    ensures
        outcome_status(Outcome::Success) == 0,
        outcome_status(Outcome::UpdatesAvailable) == 100,
        error is Usage ==> exit_status(error) == 2 && help_after(error, dialect) == dialect,
        !(error is Usage) ==> exit_status(error) == 1 && help_after(error, dialect) is None,
        0 <= code <= 255 ==> forwarded(Some(code)) == code,
        code < 0 || code > 255 ==> forwarded(Some(code)) == 1,
        forwarded(None) == 1,
        failure_lines(message) == seq![
            "error: could not run cargo-pkgman: "@ + message,
            "note: reinstall it with `cargo install cargo-pkgman`"@,
        ],
{
}

/// What is sorted by name is in the order of a dictionary: where two names first
/// differ, the one with the smaller character comes first.
pub proof fn sorted_lists_are_in_dictionary_order(
    packages: Seq<InstalledPackageView>,
    updates: Seq<PackageUpdateView>,
    common: Seq<char>,
    a: char,
    b: char,
    first: Seq<char>,
    second: Seq<char>,
    i: int,
    j: int,
)
    requires
        a < b,
        i != j,
    ensures
        sorted::<InstalledPackage>(packages) && 0 <= i < packages.len() && 0 <= j < packages.len()
            && packages[i].name == common + seq![a] + first && packages[j].name == common + seq![b]
            + second ==> i < j,
        sorted::<PackageUpdate>(updates) && 0 <= i < updates.len() && 0 <= j < updates.len()
            && updates[i].name == common + seq![a] + first && updates[j].name == common + seq![b]
            + second ==> i < j,
{
    crate::laws::texts::first_difference_decides(common, a, b, first, second);
}

/// The first package with a name is the one that is meant.
pub proof fn first_package_of_a_name_is_meant(
    before: Seq<InstalledPackageView>,
    package: InstalledPackageView,
    after: Seq<InstalledPackageView>,
    name: Seq<char>,
)
    requires
        forall|i: int| 0 <= i < before.len() ==> (#[trigger] before[i]).name != name,
    ensures
        named_package(before, name) is None,
        package.name == name ==> named_package(before + seq![package] + after, name) == Some(
            package,
        ),
    decreases before.len(),
{
    let all = before + seq![package] + after;
    if before.len() == 0 {
        assert(all[0] == package);
    } else {
        assert(all[0] == before[0]);
        assert(all.skip(1) =~= before.skip(1) + seq![package] + after);
        assert forall|i: int| 0 <= i < before.skip(1).len() implies (
        #[trigger] before.skip(1)[i]).name != name by {
            assert(before.skip(1)[i] == before[i + 1]);
        }
        first_package_of_a_name_is_meant(before.skip(1), package, after, name);
    }
}

/// Names are looked for one by one, in their order; the first that is not
/// installed is the error. Without names every package is meant.
pub proof fn names_are_looked_for_in_turn(
    packages: Seq<InstalledPackageView>,
    first: Seq<Seq<char>>,
    second: Seq<Seq<char>>,
    name: Seq<char>,
)
    ensures
        named_packages(packages, first + second) == match (
            named_packages(packages, first),
            named_packages(packages, second),
        ) {
            (Err(error), _) => Err(error),
            (Ok(_), Err(error)) => Err(error),
            (Ok(earlier), Ok(later)) => Ok(earlier + later),
        },
        named_packages(packages, seq![name]) == match named_package(packages, name) {
            Some(package) => Ok(seq![package]),
            None => Err(ErrorView::NotInstalled(name)),
        },
        selected_packages(packages, None) == Ok::<Seq<InstalledPackageView>, ErrorView>(packages),
        selected_packages(packages, Some(first)) == named_packages(packages, first),
    decreases second.len(),
{
    let none = Seq::<Seq<char>>::empty();
    assert(seq![name].drop_last() =~= none);
    assert(seq![name].last() == name);
    assert(named_packages(packages, none) == Ok::<Seq<InstalledPackageView>, ErrorView>(
        Seq::empty(),
    ));
    if let Some(package) = named_package(packages, name) {
        assert(Seq::<InstalledPackageView>::empty().push(package) =~= seq![package]);
    }
    if second.len() == 0 {
        assert(first + second =~= first);
        assert(second =~= none);
        if let Ok(earlier) = named_packages(packages, first) {
            assert(earlier + Seq::<InstalledPackageView>::empty() =~= earlier);
        }
    } else {
        names_are_looked_for_in_turn(packages, first, second.drop_last(), name);
        assert((first + second).drop_last() =~= first + second.drop_last());
        assert((first + second).last() == second.last());
        if let (Ok(earlier), Ok(later)) = (
            named_packages(packages, first),
            named_packages(packages, second.drop_last()),
        ) {
            if let Some(package) = named_package(packages, second.last()) {
                assert((earlier + later).push(package) =~= earlier + later.push(package));
            }
        }
    }
}

/// The line of a package names it, its version and, in brackets, the kind of a
/// source that is no registry. All lines of a listing have their names filled up
/// to the longest.
pub proof fn packages_are_shown_with_their_source(
    packages: Seq<InstalledPackageView>,
    package: InstalledPackageView,
    width: nat,
)
    ensures
        ({
            let start = padded(package.name, width) + " "@ + version_text(package.version);
            package_line(package, width) == match package.source {
                PackageSourceView::Registry { .. } => start,
                PackageSourceView::Git { .. } => start + " ("@ + "git"@ + ")"@,
                PackageSourceView::Path { .. } => start + " ("@ + "path"@ + ")"@,
                PackageSourceView::Other { .. } => start + " ("@ + "other"@ + ")"@,
            }
        }),
        package_lines(packages).len() == packages.len(),
        forall|i: int|
            0 <= i < packages.len() ==> #[trigger] package_lines(packages)[i] == package_line(
                packages[i],
                name_width(package_names(packages)),
            ),
        package_names(packages).len() == packages.len(),
        forall|i: int|
            0 <= i < packages.len() ==> #[trigger] package_names(packages)[i] == packages[i].name,
{
    let start = padded(package.name, width) + " "@ + version_text(package.version);
    match source_tag(package.source) {
        Some(tag) => {
            assert(package_line(package, width) =~= start + " ("@ + tag + ")"@);
        },
        None => {
            assert(package_line(package, width) =~= start);
        },
    }
}

/// `cargo` is told the registry only where one is named. For a package that is
/// the registry that it was installed from; for a search the default registry,
/// unless that is crates.io.
pub proof fn cargo_is_told_the_registry(
    command: Seq<char>,
    argument: Seq<char>,
    registry: Seq<char>,
    packages: Seq<InstalledPackageView>,
    config: RegistriesView,
    name: Seq<char>,
)
    ensures
        with_registry(command, argument, None) == seq![command, argument],
        with_registry(command, argument, Some(registry)) == seq![
            command,
            argument,
            "--registry"@,
            registry,
        ],
        search_call(argument, Some(config)) == with_registry(
            "search"@,
            argument,
            search_registry(Some(config)),
        ),
        search_call(argument, None) == seq!["search"@, argument],
        info_call(name, packages, Some(config)) == with_registry(
            "info"@,
            name,
            registry_name_of(packages, Some(config), name),
        ),
        info_call(name, packages, None) == seq!["info"@, name],
        search_registry(None) is None,
        search_registry(Some(config)) == if config.default_registry == Some("crates-io"@) {
            None
        } else {
            config.default_registry
        },
        registry_name_of(packages, None, name) is None,
        named_package(packages, name) is None ==> registry_name_of(
            packages,
            Some(config),
            name,
        ) is None,
        named_package(packages, name) matches Some(package) ==> registry_name_of(
            packages,
            Some(config),
            name,
        ) == match package.source {
            PackageSourceView::Registry { raw } => match resolved(config, raw) {
                Ok(registry) => registry.name,
                Err(_) => None,
            },
            _ => None,
        },
{
}

} // verus!
