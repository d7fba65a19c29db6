//! Update detection: which installed packages are looked up where, what the
//! lookups come to, and how the result is shown.

use vstd::prelude::*;

use crate::error::{message_of, opt_view, plural, plural_ending, shows, Error, ErrorView};
use crate::index::{latest, latest_version, offered_by};
use crate::order::{sort_by_name, stably_sorted, views, Named};
use crate::packages::{
    push_arg, push_args, replay_args, InstallOptions, InstallOptionsView, InstalledPackage,
    InstalledPackageView, PackageSource, PackageSourceView,
};
use crate::registry::{resolved, Registries, RegistriesView, Registry, RegistryView};
use crate::text::{
    append_padded, byte_len, byte_length, concat2, concat3, decimal, decimal_text, join, joined,
    lines, opt_text, padded, texts,
};
use crate::version::{newer, version_text, Version, VersionView};

verus! {

/// Registry index lookups are independent, so they run concurrently over a
/// shared connection pool. Cargo itself keeps this small to avoid flooding
/// the crates.io CDN.
pub const MAX_WORKERS: usize = 2;

/// An installed crate that has a newer publishable version.
#[derive(Debug, Clone)]
pub struct PackageUpdate {
    /// Crate name.
    pub name: String,
    /// Currently installed version.
    pub installed: Version,
    /// Newest non-yanked version on the registry.
    pub available: Version,
    /// `--registry` name, or `None` for crates.io.
    pub registry: Option<String>,
    /// Flags to replay on `cargo install`.
    pub install: InstallOptions,
}

/// The value of a [`PackageUpdate`].
pub struct PackageUpdateView {
    /// See [`PackageUpdate::name`].
    pub name: Seq<char>,
    /// See [`PackageUpdate::installed`].
    pub installed: VersionView,
    /// See [`PackageUpdate::available`].
    pub available: VersionView,
    /// See [`PackageUpdate::registry`].
    pub registry: Option<Seq<char>>,
    /// See [`PackageUpdate::install`].
    pub install: InstallOptionsView,
}

impl View for PackageUpdate {
    type V = PackageUpdateView;

    open spec fn view(&self) -> PackageUpdateView {
        PackageUpdateView {
            name: self.name@,
            installed: self.installed@,
            available: self.available@,
            registry: opt_text(self.registry),
            install: self.install@,
        }
    }
}

impl Named for PackageUpdate {
    open spec fn name_of(value: PackageUpdateView) -> Seq<char> {
        value.name
    }

    fn name(&self) -> (r: &str) {
        self.name.as_str()
    }
}

/// How many packages did not come from a registry.
pub open spec fn skipped_count(packages: Seq<InstalledPackageView>) -> nat
    decreases packages.len(),
{
    if packages.len() == 0 {
        0
    } else {
        skipped_count(packages.drop_last()) + if packages.last().source is Registry {
            0nat
        } else {
            1nat
        }
    }
}

/// The warning about packages that are not looked up.
pub open spec fn skipped_message(count: nat) -> Option<Seq<char>> {
    if count == 0 {
        None
    } else {
        Some(
            "warning: skipped "@ + decimal(count) + " package"@ + plural(count)
                + " not from a registry (git/path)"@,
        )
    }
}

/// The warning about packages that are not looked up, if there are any.
pub fn skipped_warning(packages: &[InstalledPackage]) -> (r: Option<String>)
    ensures
        opt_text(r) == skipped_message(skipped_count(views(packages@))),
{
    let ghost all = views(packages@);
    let mut skipped: usize = 0;
    let mut i: usize = 0;
    assert(all.take(0) =~= Seq::<InstalledPackageView>::empty());
    while i < packages.len()
        invariant
            all == views(packages@),
            i <= packages@.len(),
            skipped <= i,
            skipped == skipped_count(all.take(i as int)),
        decreases packages@.len() - i,
    {
        assert(all.take(i + 1).drop_last() =~= all.take(i as int));
        assert(all.take(i + 1).last() == packages@[i as int]@);
        if !packages[i].source.is_registry() {
            skipped = skipped + 1;
        }
        i = i + 1;
    }
    assert(all.take(i as int) =~= all);
    if skipped == 0 {
        return None;
    }
    let mut line = concat3("warning: skipped ", decimal_text(skipped as u64).as_str(), " package");
    line.append(plural_ending(skipped));
    line.append(" not from a registry (git/path)");
    Some(line)
}

/// A package and the registry that is asked about it.
#[derive(Debug)]
pub struct Target {
    /// The package.
    pub package: InstalledPackage,
    /// The registry.
    pub registry: Registry,
}

/// The value of a [`Target`].
pub struct TargetView {
    /// See [`Target::package`].
    pub package: InstalledPackageView,
    /// See [`Target::registry`].
    pub registry: RegistryView,
}

impl View for Target {
    type V = TargetView;

    open spec fn view(&self) -> TargetView {
        TargetView { package: self.package@, registry: self.registry@ }
    }
}

/// What is said of a package that something went wrong with.
pub open spec fn problem_line(name: Seq<char>, message: Seq<char>) -> Seq<char> {
    name + ": "@ + message
}

/// The packages that are looked up: those of a registry that can be asked.
pub open spec fn targets_of(
    packages: Seq<InstalledPackageView>,
    config: RegistriesView,
) -> Seq<TargetView>
    decreases packages.len(),
{
    if packages.len() == 0 {
        Seq::empty()
    } else {
        let before = targets_of(packages.drop_last(), config);
        let package = packages.last();
        match package.source {
            PackageSourceView::Registry { raw } => match resolved(config, raw) {
                Ok(registry) => before.push(TargetView { package, registry }),
                Err(_) => before,
            },
            _ => before,
        }
    }
}

/// The problems with packages of registries that cannot be asked.
pub open spec fn problems_of(
    packages: Seq<InstalledPackageView>,
    config: RegistriesView,
) -> Seq<Seq<char>>
    decreases packages.len(),
{
    if packages.len() == 0 {
        Seq::empty()
    } else {
        let before = problems_of(packages.drop_last(), config);
        let package = packages.last();
        match package.source {
            PackageSourceView::Registry { raw } => match resolved(config, raw) {
                Ok(_) => before,
                Err(error) => before.push(problem_line(package.name, message_of(error))),
            },
            _ => before,
        }
    }
}

/// The packages to look up and the problems with others, or an error if there
/// are problems and nothing is left to look up.
pub open spec fn planned(packages: Seq<InstalledPackageView>, config: RegistriesView) -> Result<
    (Seq<TargetView>, Seq<Seq<char>>),
    ErrorView,
> {
    let targets = targets_of(packages, config);
    let problems = problems_of(packages, config);
    if targets.len() == 0 && problems.len() > 0 {
        Err(ErrorView::Registry(problems[0]))
    } else {
        Ok((targets, problems))
    }
}

/// The packages to look up and the problems with others, or an error if there
/// are problems and nothing is left to look up.
///
/// Nothing left to ask about means every registry package failed to resolve,
/// which is a failed run rather than an empty one.
pub fn plan_lookups(packages: Vec<InstalledPackage>, registries: &Registries) -> (r: Result<
    (Vec<Target>, Vec<String>),
    Error,
>)
    ensures
        (match r {
            Ok(plan) => Ok((views(plan.0@), texts(plan.1@))),
            Err(error) => Err(error@),
        }) == planned(views(packages@), registries@),
{
    let ghost all = views(packages@);
    let mut left = packages;
    let ghost mut done: int = 0;
    let mut targets: Vec<Target> = Vec::new();
    let mut problems: Vec<String> = Vec::new();
    assert(all.take(0) =~= Seq::<InstalledPackageView>::empty());
    assert(views(targets@) =~= Seq::<TargetView>::empty());
    assert(texts(problems@) =~= Seq::<Seq<char>>::empty());
    while left.len() > 0
        invariant
            all == views(packages@),
            0 <= done,
            done + left@.len() == all.len(),
            views(left@) =~= all.skip(done),
            views(targets@) == targets_of(all.take(done), registries@),
            texts(problems@) == problems_of(all.take(done), registries@),
        decreases left@.len(),
    {
        let ghost rest = views(left@);
        let package = left.remove(0);
        assert(package@ == rest[0]);
        assert(package@ == all[done]);
        assert(views(left@) =~= rest.skip(1));
        assert(all.take(done + 1).drop_last() =~= all.take(done));
        assert(all.take(done + 1).last() == package@);
        let answer = match &package.source {
            PackageSource::Registry { raw } => Some(registries.resolve(raw.as_str())),
            _ => None,
        };
        match answer {
            Some(Ok(registry)) => {
                let ghost before = targets@;
                let target = Target { package, registry };
                targets.push(target);
                assert(views(targets@) =~= views(before).push(target@));
            },
            Some(Err(error)) => {
                let message = error.message();
                assert(!(error@ is Io));
                let line = concat3(package.name.as_str(), ": ", message.as_str());
                push_arg(&mut problems, line.as_str());
            },
            None => {},
        }
        proof {
            done = done + 1;
        }
    }
    assert(all.take(done) =~= all);
    if targets.len() == 0 && problems.len() > 0 {
        assert(texts(problems@)[0] == problems@[0]@);
        return Err(Error::Registry(problems[0].clone()));
    }
    Ok((targets, problems))
}

/// How many workers share some lookups.
pub open spec fn worker_count(lookups: nat) -> nat {
    if lookups < 1 {
        1
    } else if lookups > MAX_WORKERS {
        MAX_WORKERS as nat
    } else {
        lookups
    }
}

/// The items that one of several workers gets when they are dealt out in turn.
pub open spec fn dealt<T>(items: Seq<T>, workers: nat, worker: int) -> Seq<T>
    decreases items.len(),
{
    if items.len() == 0 {
        Seq::empty()
    } else if (items.len() - 1) % (workers as int) == worker {
        dealt(items.drop_last(), workers, worker).push(items.last())
    } else {
        dealt(items.drop_last(), workers, worker)
    }
}

/// Deals out lookups to workers in turn.
pub fn assign_workers(targets: Vec<Target>) -> (r: Vec<Vec<Target>>)
    ensures
        r@.len() == worker_count(targets@.len()),
        forall|worker: int|
            0 <= worker < r@.len() ==> (#[trigger] r@[worker])@ == dealt(
                targets@,
                worker_count(targets@.len()),
                worker,
            ),
{
    let workers: usize = if targets.len() < 1 {
        1
    } else if targets.len() > MAX_WORKERS {
        MAX_WORKERS
    } else {
        targets.len()
    };
    let ghost all = targets@;
    let mut buckets: Vec<Vec<Target>> = Vec::new();
    while buckets.len() < workers
        invariant
            buckets@.len() <= workers,
            forall|worker: int|
                0 <= worker < buckets@.len() ==> (#[trigger] buckets@[worker])@ =~= Seq::<
                    Target,
                >::empty(),
        decreases workers - buckets@.len(),
    {
        buckets.push(Vec::new());
    }
    assert(all.take(0) =~= Seq::<Target>::empty());
    let mut left = targets;
    let mut index: usize = 0;
    let total: usize = left.len();
    while left.len() > 0
        invariant
            all == targets@,
            total == all.len(),
            workers == worker_count(all.len()),
            workers > 0,
            index + left@.len() == total,
            left@ =~= all.skip(index as int),
            buckets@.len() == workers,
            forall|worker: int|
                0 <= worker < workers ==> (#[trigger] buckets@[worker])@ == dealt(
                    all.take(index as int),
                    workers as nat,
                    worker,
                ),
        decreases left@.len(),
    {
        let ghost before = buckets@;
        let ghost rest = left@;
        let target = left.remove(0);
        assert(target == rest[0]);
        assert(target == all[index as int]);
        assert(left@ =~= rest.skip(1));
        assert(all.take(index + 1).drop_last() =~= all.take(index as int));
        let at: usize = index % workers;
        buckets[at].push(target);
        assert forall|worker: int| 0 <= worker < workers implies (#[trigger] buckets@[worker])@
            == dealt(all.take(index + 1), workers as nat, worker) by {
            assert(before[worker]@ == dealt(all.take(index as int), workers as nat, worker));
        }
        index = index + 1;
    }
    assert(all.take(index as int) =~= all);
    buckets
}

/// What a lookup came to.
#[derive(Debug)]
pub struct Checked {
    /// The package.
    pub package: InstalledPackage,
    /// The registry that was asked.
    pub registry: Registry,
    /// The newest version, or what went wrong.
    pub result: Result<Option<Version>, String>,
}

/// The value of [`Checked`].
pub struct CheckedView {
    /// See [`Checked::package`].
    pub package: InstalledPackageView,
    /// See [`Checked::registry`].
    pub registry: RegistryView,
    /// See [`Checked::result`].
    pub result: Result<Option<VersionView>, Seq<char>>,
}

impl View for Checked {
    type V = CheckedView;

    open spec fn view(&self) -> CheckedView {
        CheckedView {
            package: self.package@,
            registry: self.registry@,
            result: match self.result {
                Ok(version) => Ok(opt_view(version)),
                Err(message) => Err(message@),
            },
        }
    }
}

/// Whether `result` is what a lookup of `package` comes to when it got `body`.
/// Prereleases count if the installed version is one.
pub open spec fn comes_to(
    package: InstalledPackageView,
    body: Result<Option<String>, Error>,
    result: Result<Option<VersionView>, Seq<char>>,
) -> bool {
    match body {
        Ok(body) => result == (match latest(opt_text(body), package.version.pre.len() > 0) {
            Ok(version) => Ok(version),
            Err(error) => Err(problem_line(package.name, message_of(error))),
        }),
        Err(error) => exists|message: Seq<char>| #[trigger]
            shows(error@, message) && result == Err::<Option<VersionView>, _>(
                problem_line(package.name, message),
            ),
    }
}

/// What a lookup comes to, given the index file or why there is none.
pub fn check_target(target: Target, body: Result<Option<String>, Error>) -> (r: Checked)
    ensures
        r@.package == target@.package,
        r@.registry == target@.registry,
        comes_to(target@.package, body, r@.result),
{
    let prerelease = target.package.version.is_prerelease();
    let found = match body {
        Ok(body) => {
            let found = latest_version(body, prerelease);
            assert(found matches Err(error) ==> !(error@ is Io)) by {
                lemma_latest_error(opt_text(body), prerelease);
            }
            found
        },
        Err(error) => Err(error),
    };
    let result = match found {
        Ok(version) => Ok(version),
        Err(error) => {
            let message = error.message();
            let line = concat3(target.package.name.as_str(), ": ", message.as_str());
            assert(shows(error@, message@));
            assert(line@ == problem_line(target@.package.name, message@));
            Err(line)
        },
    };
    Checked { package: target.package, registry: target.registry, result }
}

/// Reading an index file can only fail with a registry error.
proof fn lemma_latest_error(body: Option<Seq<char>>, prerelease: bool)
    ensures
        latest(body, prerelease) matches Err(error) ==> error is Registry,
{
    if let Some(body) = body {
        lemma_offered_error(lines(body), prerelease);
    }
}

proof fn lemma_offered_error(lines: Seq<Seq<char>>, prerelease: bool)
    ensures
        offered_by(lines, prerelease) matches Err(error) ==> error is Registry,
    decreases lines.len(),
{
    if lines.len() > 0 {
        lemma_offered_error(lines.drop_last(), prerelease);
    }
}

/// The updates among some results, in order: the packages with a newer version.
pub open spec fn updates_in(results: Seq<CheckedView>) -> Seq<PackageUpdateView>
    decreases results.len(),
{
    if results.len() == 0 {
        Seq::empty()
    } else {
        let before = updates_in(results.drop_last());
        let last = results.last();
        match last.result {
            Ok(Some(available)) if newer(available, last.package.version) => before.push(
                PackageUpdateView {
                    name: last.package.name,
                    installed: last.package.version,
                    available,
                    registry: last.registry.name,
                    install: last.package.install,
                },
            ),
            _ => before,
        }
    }
}

/// What went wrong among some results, in order.
pub open spec fn failures_in(results: Seq<CheckedView>) -> Seq<Seq<char>>
    decreases results.len(),
{
    if results.len() == 0 {
        Seq::empty()
    } else {
        let before = failures_in(results.drop_last());
        match results.last().result {
            Ok(_) => before,
            Err(message) => before.push(message),
        }
    }
}

/// The updates and failures among some results, or an error if every lookup
/// failed.
pub open spec fn collected(results: Seq<CheckedView>) -> Result<
    (Seq<PackageUpdateView>, Seq<Seq<char>>),
    ErrorView,
> {
    let failures = failures_in(results);
    if results.len() > 0 && failures.len() == results.len() {
        Err(ErrorView::Registry(failures[0]))
    } else {
        Ok((updates_in(results), failures))
    }
}

/// The updates and failures among some results, or an error if every lookup
/// failed.
///
/// A single unreachable crate is a warning, but if every lookup we attempted
/// failed then the network did, and we should say so rather than claim
/// everything is up to date. Without any lookup there is nothing to report.
pub fn collect_updates(results: Vec<Checked>) -> (r: Result<
    (Vec<PackageUpdate>, Vec<String>),
    Error,
>)
    ensures
        (match r {
            Ok(found) => Ok((views(found.0@), texts(found.1@))),
            Err(error) => Err(error@),
        }) == collected(views(results@)),
{
    let ghost all = views(results@);
    let attempted: usize = results.len();
    let mut left = results;
    let ghost mut done: int = 0;
    let mut updates: Vec<PackageUpdate> = Vec::new();
    let mut failures: Vec<String> = Vec::new();
    assert(all.take(0) =~= Seq::<CheckedView>::empty());
    assert(views(updates@) =~= Seq::<PackageUpdateView>::empty());
    assert(texts(failures@) =~= Seq::<Seq<char>>::empty());
    while left.len() > 0
        invariant
            all == views(results@),
            0 <= done,
            done + left@.len() == all.len(),
            views(left@) =~= all.skip(done),
            views(updates@) == updates_in(all.take(done)),
            texts(failures@) == failures_in(all.take(done)),
        decreases left@.len(),
    {
        let ghost rest = views(left@);
        let checked = left.remove(0);
        assert(checked@ == rest[0]);
        assert(checked@ == all[done]);
        assert(views(left@) =~= rest.skip(1));
        assert(all.take(done + 1).drop_last() =~= all.take(done));
        assert(all.take(done + 1).last() == checked@);
        match checked.result {
            Ok(Some(available)) => {
                if available.is_newer_than(&checked.package.version) {
                    let ghost before = updates@;
                    let update = PackageUpdate {
                        name: checked.package.name,
                        installed: checked.package.version,
                        available,
                        registry: checked.registry.name,
                        install: checked.package.install,
                    };
                    updates.push(update);
                    assert(views(updates@) =~= views(before).push(update@));
                }
            },
            Ok(None) => {},
            Err(message) => {
                push_arg(&mut failures, message.as_str());
            },
        }
        proof {
            done = done + 1;
        }
    }
    assert(all.take(done) =~= all);
    if attempted > 0 && failures.len() == attempted {
        assert(texts(failures@)[0] == failures@[0]@);
        return Err(Error::Registry(failures[0].clone()));
    }
    Ok((updates, failures))
}

/// The lines that warn of some problems: a line for each, and an empty line
/// after them.
pub open spec fn warning_lines(problems: Seq<Seq<char>>) -> Seq<Seq<char>> {
    problems.map_values(|problem: Seq<char>| "warning: "@ + problem) + if problems.len() > 0 {
        seq![""@]
    } else {
        Seq::empty()
    }
}

/// The lines that warn of some problems.
fn warnings(problems: &[String]) -> (r: Vec<String>)
    ensures
        texts(r@) == warning_lines(texts(problems@)),
{
    let ghost all = texts(problems@).map_values(|problem: Seq<char>| "warning: "@ + problem);
    let mut lines: Vec<String> = Vec::new();
    let mut i: usize = 0;
    assert(texts(lines@) =~= all.take(0));
    while i < problems.len()
        invariant
            i <= problems@.len(),
            all == texts(problems@).map_values(|problem: Seq<char>| "warning: "@ + problem),
            texts(lines@) == all.take(i as int),
        decreases problems@.len() - i,
    {
        push_arg(&mut lines, concat2("warning: ", problems[i].as_str()).as_str());
        assert(all.take(i + 1) =~= all.take(i as int).push(all[i as int]));
        i = i + 1;
    }
    assert(all.take(i as int) =~= all);
    if problems.len() > 0 {
        push_arg(&mut lines, "");
    }
    assert(texts(lines@) =~= warning_lines(texts(problems@)));
    lines
}

/// The updates that a run found.
#[derive(Debug)]
pub struct UpdateReport {
    /// The updates, sorted by name.
    pub updates: Vec<PackageUpdate>,
    /// The lines that warn of problems.
    pub warnings: Vec<String>,
}

/// What all lookups of a run come to, with the problems that were known before
/// them.
pub fn available_updates(results: Vec<Checked>, problems: Vec<String>) -> (r: Result<
    UpdateReport,
    Error,
>)
    ensures
        match collected(views(results@)) {
            Err(error) => r matches Err(e) && e@ == error,
            Ok((updates, failures)) => {
                &&& r matches Ok(report)
                &&& stably_sorted::<PackageUpdate>(updates, views(report.updates@))
                &&& texts(report.warnings@) == warning_lines(texts(problems@) + failures)
            },
        },
{
    match collect_updates(results) {
        Ok((updates, failures)) => {
            let mut problems = problems;
            push_args(&mut problems, failures.as_slice());
            Ok(
                UpdateReport {
                    updates: sort_by_name(updates),
                    warnings: warnings(problems.as_slice()),
                },
            )
        },
        Err(error) => Err(error),
    }
}

/// The most bytes that a name takes.
pub open spec fn name_width(names: Seq<Seq<char>>) -> nat
    decreases names.len(),
{
    if names.len() == 0 {
        0
    } else {
        let before = name_width(names.drop_last());
        if byte_len(names.last()) > before {
            byte_len(names.last())
        } else {
            before
        }
    }
}

/// The line for an update, with the name filled up to `width`.
pub open spec fn update_line(update: PackageUpdateView, width: nat) -> Seq<char> {
    let flags = replay_args(update.install);
    "  "@ + padded(update.name, width) + "  "@ + version_text(update.installed) + " -> "@
        + version_text(update.available) + if flags.len() == 0 {
        Seq::empty()
    } else {
        "  ["@ + joined(flags, " "@) + "]"@
    }
}

/// The names of some updates.
pub open spec fn update_names(updates: Seq<PackageUpdateView>) -> Seq<Seq<char>> {
    updates.map_values(|update: PackageUpdateView| update.name)
}

/// The lines that show some updates.
pub open spec fn update_lines(updates: Seq<PackageUpdateView>) -> Seq<Seq<char>> {
    if updates.len() == 0 {
        seq!["All Cargo packages are up to date."@]
    } else {
        let count = updates.len();
        let width = name_width(update_names(updates));
        seq![decimal(count) + " package"@ + plural(count) + " can be upgraded:"@, ""@]
            + updates.map_values(|update: PackageUpdateView| update_line(update, width))
    }
}

fn show_update(update: &PackageUpdate, width: usize) -> (r: String)
    ensures
        r@ == update_line(update@, width as nat),
{
    let mut line = "  ".to_string();
    append_padded(&mut line, update.name.as_str(), width);
    line.append("  ");
    line.append(update.installed.text().as_str());
    line.append(" -> ");
    line.append(update.available.text().as_str());
    let flags = update.install.cargo_args();
    assert(texts(flags@).len() == flags@.len());
    let ghost start = line@;
    if flags.len() > 0 {
        line.append("  [");
        line.append(join(flags.as_slice(), " ").as_str());
        line.append("]");
        assert(line@ =~= start + ("  ["@ + joined(texts(flags@), " "@) + "]"@));
    }
    assert(line@ =~= update_line(update@, width as nat));
    line
}

/// The lines that show the upgrade list, or that everything is up to date.
pub fn print_updates(updates: &[PackageUpdate]) -> (r: Vec<String>)
    ensures
        texts(r@) == update_lines(views(updates@)),
{
    let ghost all = views(updates@);
    let mut lines: Vec<String> = Vec::new();
    assert(texts(lines@) =~= Seq::<Seq<char>>::empty());
    if updates.len() == 0 {
        push_arg(&mut lines, "All Cargo packages are up to date.");
        assert(texts(lines@) =~= update_lines(all));
        return lines;
    }
    let mut header = decimal_text(updates.len() as u64);
    header.append(" package");
    header.append(plural_ending(updates.len()));
    header.append(" can be upgraded:");
    push_arg(&mut lines, header.as_str());
    push_arg(&mut lines, "");
    let ghost head = texts(lines@);

    let ghost names = update_names(all);
    let mut width: usize = 0;
    let mut i: usize = 0;
    assert(names.take(0) =~= Seq::<Seq<char>>::empty());
    while i < updates.len()
        invariant
            i <= updates@.len(),
            all == views(updates@),
            names == update_names(all),
            width == name_width(names.take(i as int)),
        decreases updates@.len() - i,
    {
        assert(names.take(i + 1).drop_last() =~= names.take(i as int));
        assert(names.take(i + 1).last() == updates@[i as int].name@);
        let length: usize = byte_length(updates[i].name.as_str());
        if length > width {
            width = length;
        }
        i = i + 1;
    }
    assert(names.take(i as int) =~= names);

    let ghost shown = all.map_values(
        |update: PackageUpdateView| update_line(update, name_width(names)),
    );
    let mut k: usize = 0;
    assert(head + shown.take(0) =~= head);
    while k < updates.len()
        invariant
            k <= updates@.len(),
            all == views(updates@),
            width == name_width(names),
            shown == all.map_values(
                |update: PackageUpdateView| update_line(update, name_width(names)),
            ),
            texts(lines@) == head + shown.take(k as int),
        decreases updates@.len() - k,
    {
        push_arg(&mut lines, show_update(&updates[k], width).as_str());
        assert(head + shown.take(k + 1) =~= (head + shown.take(k as int)).push(shown[k as int]));
        k = k + 1;
    }
    assert(shown.take(k as int) =~= shown);
    assert(texts(lines@) =~= update_lines(all));
    lines
}

/// Every package is accounted for: it is looked up, it is a problem, or it did
/// not come from a registry.
pub proof fn packages_are_accounted_for(
    packages: Seq<InstalledPackageView>,
    config: RegistriesView,
)
    ensures
        targets_of(packages, config).len() + problems_of(packages, config).len() + skipped_count(
            packages,
        ) == packages.len(),
    decreases packages.len(),
{
    if packages.len() > 0 {
        packages_are_accounted_for(packages.drop_last(), config);
    }
}

/// Only packages of registries are looked up.
pub proof fn only_registry_packages_are_looked_up(
    packages: Seq<InstalledPackageView>,
    config: RegistriesView,
)
    ensures
        forall|i: int|
            0 <= i < targets_of(packages, config).len() ==> {
                let target = #[trigger] targets_of(packages, config)[i];
                &&& packages.contains(target.package)
                &&& target.package.source matches PackageSourceView::Registry { raw }
                &&& resolved(config, raw) == Ok::<RegistryView, ErrorView>(target.registry)
            },
    decreases packages.len(),
{
    if packages.len() > 0 {
        let before = packages.drop_last();
        only_registry_packages_are_looked_up(before, config);
        let targets = targets_of(packages, config);
        assert forall|i: int| 0 <= i < targets.len() implies {
            let target = #[trigger] targets[i];
            &&& packages.contains(target.package)
            &&& target.package.source matches PackageSourceView::Registry { raw }
            &&& resolved(config, raw) == Ok::<RegistryView, ErrorView>(target.registry)
        } by {
            let target = targets[i];
            if i < targets_of(before, config).len() {
                assert(target == targets_of(before, config)[i]);
                let k = choose|k: int| 0 <= k < before.len() && before[k] == target.package;
                assert(packages[k] == target.package);
            } else {
                assert(packages[packages.len() - 1] == target.package);
            }
        }
    }
}

/// Each lookup is dealt to one worker, who gets it in its turn, and the workers
/// have no more lookups than there are.
pub proof fn lookups_are_dealt_once<T>(items: Seq<T>, workers: nat)
    requires
        1 <= workers <= MAX_WORKERS,
    ensures
        forall|i: int|
            0 <= i < items.len() ==> {
                let share = dealt(items, workers, i % (workers as int));
                &&& i / (workers as int) < share.len()
                &&& share[i / (workers as int)] == #[trigger] items[i]
            },
        workers == 1 ==> dealt(items, workers, 0).len() == items.len(),
        workers == 2 ==> dealt(items, workers, 0).len() + dealt(items, workers, 1).len()
            == items.len(),
{
    lemma_shares(items, workers);
    assert forall|i: int| 0 <= i < items.len() implies {
        let share = dealt(items, workers, i % (workers as int));
        &&& i / (workers as int) < share.len()
        &&& share[i / (workers as int)] == #[trigger] items[i]
    } by {
        lemma_dealt_at(items, workers, i);
    }
}

/// The sizes of the workers' shares.
proof fn lemma_shares<T>(items: Seq<T>, workers: nat)
    requires
        1 <= workers <= MAX_WORKERS,
    ensures
        workers == 1 ==> dealt(items, workers, 0).len() == items.len(),
        workers == 2 ==> dealt(items, workers, 0).len() == (items.len() + 1) / 2 && dealt(
            items,
            workers,
            1,
        ).len() == items.len() / 2,
    decreases items.len(),
{
    if items.len() > 0 {
        lemma_shares(items.drop_last(), workers);
    }
}

proof fn lemma_dealt_at<T>(items: Seq<T>, workers: nat, i: int)
    requires
        1 <= workers <= MAX_WORKERS,
        0 <= i < items.len(),
    ensures
        i / (workers as int) < dealt(items, workers, i % (workers as int)).len(),
        dealt(items, workers, i % (workers as int))[i / (workers as int)] == items[i],
    decreases items.len(),
{
    let before = items.drop_last();
    lemma_shares(before, workers);
    if i < before.len() {
        lemma_dealt_at(before, workers, i);
        assert(before[i] == items[i]);
    }
}

/// What is reported as an update is newer than what is installed.
pub proof fn updates_are_newer(results: Seq<CheckedView>)
    ensures
        forall|i: int|
            0 <= i < updates_in(results).len() ==> newer(
                (#[trigger] updates_in(results)[i]).available,
                updates_in(results)[i].installed,
            ),
    decreases results.len(),
{
    if results.len() > 0 {
        updates_are_newer(results.drop_last());
        let before = updates_in(results.drop_last());
        assert forall|i: int| 0 <= i < updates_in(results).len() implies newer(
            (#[trigger] updates_in(results)[i]).available,
            updates_in(results)[i].installed,
        ) by {
            if i < before.len() {
                assert(updates_in(results)[i] == before[i]);
            }
        }
    }
}

/// A failed lookup does not hide the others: the updates are those of the
/// lookups that did not fail.
pub proof fn failures_hide_no_updates(results: Seq<CheckedView>)
    ensures
        updates_in(results) == updates_in(
            results.filter(|checked: CheckedView| checked.result is Ok),
        ),
    decreases results.len(),
{
    let answered = |checked: CheckedView| checked.result is Ok;
    reveal(Seq::filter);
    if results.len() > 0 {
        failures_hide_no_updates(results.drop_last());
        let rest = results.drop_last().filter(answered);
        assert(results.filter(answered) == if answered(results.last()) {
            rest.push(results.last())
        } else {
            rest
        });
        assert(rest.push(results.last()).drop_last() =~= rest);
    }
}

/// Without a package of a registry there is nothing to look up and nothing to
/// warn of, and the run succeeds without updates.
pub proof fn no_registry_package_means_no_updates(
    packages: Seq<InstalledPackageView>,
    config: RegistriesView,
)
    requires
        forall|i: int| 0 <= i < packages.len() ==> !((#[trigger] packages[i]).source is Registry),
    ensures
        targets_of(packages, config) == Seq::<TargetView>::empty(),
        problems_of(packages, config) == Seq::<Seq<char>>::empty(),
        updates_in(Seq::empty()) == Seq::<PackageUpdateView>::empty(),
        failures_in(Seq::empty()) == Seq::<Seq<char>>::empty(),
        warning_lines(Seq::empty()) == Seq::<Seq<char>>::empty(),
    decreases packages.len(),
{
    if packages.len() > 0 {
        let before = packages.drop_last();
        assert forall|i: int| 0 <= i < before.len() implies !(
        (#[trigger] before[i]).source is Registry) by {
            assert(before[i] == packages[i]);
        }
        assert(packages[packages.len() - 1] == packages.last());
        no_registry_package_means_no_updates(before, config);
    }
}

/// When every lookup fails, what went wrong with the first one is what the run
/// reports.
pub proof fn first_failure_is_reported(results: Seq<CheckedView>)
    requires
        results.len() > 0,
        forall|i: int| 0 <= i < results.len() ==> (#[trigger] results[i]).result is Err,
    ensures
        failures_in(results).len() == results.len(),
        failures_in(results)[0] == results[0].result->Err_0,
    decreases results.len(),
{
    let before = results.drop_last();
    assert(results[results.len() - 1].result is Err);
    if before.len() == 0 {
        assert(failures_in(before).len() == 0);
    } else {
        assert forall|i: int| 0 <= i < before.len() implies (#[trigger] before[i]).result
            is Err by {
            assert(before[i] == results[i]);
        }
        first_failure_is_reported(before);
        assert(before[0] == results[0]);
    }
}

} // verus!
