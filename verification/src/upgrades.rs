//! Upgrades: the plan that is shown, the `cargo install` arguments, and what a
//! batch comes to.

use vstd::prelude::*;

use crate::cargo::{cargo_outcome, cargo_result, unit_view, CargoStatus, CargoStatusView};
use crate::error::{plural, plural_ending, Error, ErrorView};
use crate::order::views;
use crate::packages::{only_if, push_arg, push_args, replay_args};
use crate::text::{concat2, concat3, decimal, decimal_text, opt_text, texts};
use crate::updates::{
    print_updates, update_lines, update_names, PackageUpdate, PackageUpdateView,
};
use crate::version::version_text;

verus! {

/// Options for an upgrade.
#[derive(Debug, Clone)]
pub struct UpgradeOptions {
    /// Print planned upgrades without running `cargo install`.
    pub dry_run: bool,
    /// Pass `--locked` to `cargo install`.
    pub locked: bool,
}

impl Default for UpgradeOptions {
    fn default() -> (r: Self)
        ensures
            !r.dry_run,
            !r.locked,
    {
        UpgradeOptions { dry_run: false, locked: false }
    }
}

/// The `cargo` arguments that apply an update.
pub open spec fn install_args(update: PackageUpdateView, locked: bool) -> Seq<Seq<char>> {
    seq!["install"@, "--force"@, "--version"@, "="@ + version_text(update.available)] + only_if(
        locked,
        seq!["--locked"@],
    ) + (match update.registry {
        Some(registry) => seq!["--registry"@, registry],
        None => Seq::empty(),
    }) + replay_args(update.install) + seq![update.name]
}

/// Arguments that would be passed to `cargo install` to apply `update`.
pub fn upgrade_args(update: &PackageUpdate, locked: bool) -> (r: Vec<String>)
    ensures
        texts(r@) == install_args(update@, locked),
{
    let mut args: Vec<String> = Vec::new();
    assert(texts(args@) =~= Seq::<Seq<char>>::empty());
    push_arg(&mut args, "install");
    push_arg(&mut args, "--force");
    push_arg(&mut args, "--version");
    push_arg(&mut args, concat2("=", update.available.text().as_str()).as_str());
    if locked {
        push_arg(&mut args, "--locked");
    }
    if let Some(registry) = &update.registry {
        push_arg(&mut args, "--registry");
        push_arg(&mut args, registry.as_str());
    }
    let ghost start = texts(args@);
    assert(start =~= seq![
        "install"@,
        "--force"@,
        "--version"@,
        "="@ + version_text(update@.available),
    ] + only_if(locked, seq!["--locked"@]) + (match update@.registry {
        Some(registry) => seq!["--registry"@, registry],
        None => Seq::empty(),
    }));
    push_args(&mut args, update.install.cargo_args().as_slice());
    push_arg(&mut args, update.name.as_str());
    assert(texts(args@) =~= install_args(update@, locked));
    args
}

/// What is shown before an upgrade, and whether it goes on from there.
#[derive(Debug)]
pub struct UpgradePreview {
    /// The lines to print.
    pub lines: Vec<String>,
    /// The packages to upgrade; `None` when nothing is to be upgraded.
    pub batch: Option<Batch>,
}

/// The lines that are shown before an upgrade.
pub open spec fn preview_lines(updates: Seq<PackageUpdateView>, dry_run: bool) -> Seq<Seq<char>> {
    if updates.len() == 0 {
        update_lines(updates)
    } else {
        update_lines(updates).push(""@) + only_if(
            dry_run,
            seq!["Dry run; no packages were upgraded."@],
        )
    }
}

/// Whether an upgrade goes on after its preview: there is something to upgrade,
/// and it is no dry run.
pub open spec fn goes_on(updates: nat, dry_run: bool) -> bool {
    updates > 0 && !dry_run
}

/// What is shown before an upgrade. With nothing to upgrade, and in a dry run,
/// that is all.
pub fn preview(updates: Vec<PackageUpdate>, options: &UpgradeOptions) -> (r: UpgradePreview)
    ensures
        texts(r.lines@) == preview_lines(views(updates@), options.dry_run),
        match r.batch {
            Some(batch) => goes_on(updates@.len(), options.dry_run) && batch.updates() == views(
                updates@,
            ) && batch.done().len() == 0,
            None => !goes_on(updates@.len(), options.dry_run),
        },
{
    let mut lines = print_updates(updates.as_slice());
    if updates.len() == 0 {
        return UpgradePreview { lines, batch: None };
    }
    push_arg(&mut lines, "");
    if options.dry_run {
        push_arg(&mut lines, "Dry run; no packages were upgraded.");
    }
    assert(texts(lines@) =~= preview_lines(views(updates@), options.dry_run));
    let batch = if options.dry_run {
        None
    } else {
        Some(Batch::new(updates))
    };
    UpgradePreview { lines, batch }
}

/// The line that announces an upgrade.
pub open spec fn announcement(update: PackageUpdateView) -> Seq<char> {
    ":: upgrading "@ + update.name + " "@ + version_text(update.installed) + " -> "@
        + version_text(update.available)
}

/// The line that announces an upgrade.
pub fn announce(update: &PackageUpdate) -> (r: String)
    ensures
        r@ == announcement(update@),
{
    let mut line = concat3(":: upgrading ", update.name.as_str(), " ");
    line.append(update.installed.text().as_str());
    line.append(" -> ");
    line.append(update.available.text().as_str());
    line
}

/// What `cargo install` came to for an update.
pub open spec fn upgrade_outcome(name: Seq<char>, status: CargoStatusView) -> Result<
    (),
    ErrorView,
> {
    let status = match status {
        CargoStatusView::NotStarted(message) => CargoStatusView::NotStarted(
            "failed to start while upgrading "@ + name + ": "@ + message,
        ),
        ended => ended,
    };
    cargo_outcome("install"@, "failed to upgrade "@ + name, status)
}

/// What `cargo install` came to for an update.
pub fn upgrade_result(update: &PackageUpdate, status: CargoStatus) -> (r: Result<(), Error>)
    ensures
        unit_view(r) == upgrade_outcome(update@.name, status@),
{
    let status = match status {
        CargoStatus::NotStarted(message) => {
            let mut text = concat3("failed to start while upgrading ", update.name.as_str(), ": ");
            text.append(message.as_str());
            CargoStatus::NotStarted(text)
        },
        ended => ended,
    };
    cargo_result("install", concat2("failed to upgrade ", update.name.as_str()).as_str(), status)
}

/// A package that a batch tried to upgrade.
#[derive(Debug)]
pub struct Attempt {
    /// The package.
    pub name: String,
    /// Whether that succeeded.
    pub success: bool,
}

/// The value of an [`Attempt`].
pub struct AttemptView {
    /// See [`Attempt::name`].
    pub name: Seq<char>,
    /// See [`Attempt::success`].
    pub success: bool,
}

impl View for Attempt {
    type V = AttemptView;

    open spec fn view(&self) -> AttemptView {
        AttemptView { name: self.name@, success: self.success }
    }
}

/// How many attempts succeeded.
pub open spec fn succeeded_in(attempts: Seq<AttemptView>) -> nat
    decreases attempts.len(),
{
    if attempts.len() == 0 {
        0
    } else {
        succeeded_in(attempts.drop_last()) + if attempts.last().success {
            1nat
        } else {
            0nat
        }
    }
}

/// The packages whose attempts failed, in order.
pub open spec fn failed_in(attempts: Seq<AttemptView>) -> Seq<Seq<char>>
    decreases attempts.len(),
{
    if attempts.len() == 0 {
        Seq::empty()
    } else if attempts.last().success {
        failed_in(attempts.drop_last())
    } else {
        failed_in(attempts.drop_last()).push(attempts.last().name)
    }
}

/// What a batch came to.
#[derive(Debug)]
pub struct UpgradeSummary {
    /// The line to print.
    pub line: Option<String>,
    /// The result.
    pub result: Result<(), Error>,
}

/// The line that sums up a batch.
pub open spec fn summary_line(attempts: Seq<AttemptView>) -> Option<Seq<char>> {
    let succeeded = succeeded_in(attempts);
    let failed = failed_in(attempts).len();
    let start = "Upgraded "@ + decimal(succeeded) + " package"@ + plural(succeeded);
    if failed == 0 {
        Some(start + "."@)
    } else if succeeded > 0 {
        Some(start + "; "@ + decimal(failed) + " failed."@)
    } else {
        None
    }
}

/// The result of a batch: an error that lists the failures, if there are any.
pub open spec fn batch_result(attempts: Seq<AttemptView>) -> Result<(), ErrorView> {
    if failed_in(attempts).len() == 0 {
        Ok(())
    } else {
        Err(
            ErrorView::Upgrade {
                succeeded: succeeded_in(attempts),
                failed: failed_in(attempts),
            },
        )
    }
}

/// What some attempts came to: failures are collected.
pub fn summarize(attempts: &[Attempt]) -> (r: UpgradeSummary)
    ensures
        opt_text(r.line) == summary_line(views(attempts@)),
        unit_view(r.result) == batch_result(views(attempts@)),
{
    let ghost all = views(attempts@);
    let mut succeeded: usize = 0;
    let mut failed: Vec<String> = Vec::new();
    let mut i: usize = 0;
    assert(all.take(0) =~= Seq::<AttemptView>::empty());
    assert(texts(failed@) =~= Seq::<Seq<char>>::empty());
    while i < attempts.len()
        invariant
            i <= attempts@.len(),
            all == views(attempts@),
            succeeded <= i,
            succeeded == succeeded_in(all.take(i as int)),
            texts(failed@) == failed_in(all.take(i as int)),
        decreases attempts@.len() - i,
    {
        assert(all.take(i + 1).drop_last() =~= all.take(i as int));
        assert(all.take(i + 1).last() == attempts@[i as int]@);
        if attempts[i].success {
            succeeded = succeeded + 1;
        } else {
            push_arg(&mut failed, attempts[i].name.as_str());
        }
        i = i + 1;
    }
    assert(all.take(i as int) =~= all);
    assert(texts(failed@).len() == failed@.len());
    let mut line = concat3("Upgraded ", decimal_text(succeeded as u64).as_str(), " package");
    line.append(plural_ending(succeeded));
    if failed.len() == 0 {
        line.append(".");
        return UpgradeSummary { line: Some(line), result: Ok(()) };
    }
    let shown = if succeeded > 0 {
        line.append("; ");
        line.append(decimal_text(failed.len() as u64).as_str());
        line.append(" failed.");
        Some(line)
    } else {
        None
    };
    UpgradeSummary { line: shown, result: Err(Error::Upgrade { succeeded, failed }) }
}

/// What became of an update, by the status of its `cargo install`.
pub open spec fn attempt_of(update: PackageUpdateView, status: CargoStatusView) -> AttemptView {
    AttemptView { name: update.name, success: upgrade_outcome(update.name, status) is Ok }
}

/// Updates that are installed one after another, each once. Failures do not stop
/// the rest of the batch; they are collected and returned at the end.
#[derive(Debug)]
pub struct Batch {
    updates: Vec<PackageUpdate>,
    attempts: Vec<Attempt>,
}

impl Batch {
    #[verifier::type_invariant]
    spec fn well_formed(self) -> bool {
        self.in_order()
    }

    /// The updates of the batch.
    pub closed spec fn updates(self) -> Seq<PackageUpdateView> {
        views(self.updates@)
    }

    /// What was attempted so far.
    pub closed spec fn done(self) -> Seq<AttemptView> {
        views(self.attempts@)
    }

    /// Whether the first updates were attempted, in order, and no others.
    pub open spec fn in_order(self) -> bool {
        &&& self.done().len() <= self.updates().len()
        &&& forall|i: int|
            0 <= i < self.done().len() ==> (#[trigger] self.done()[i]).name
                == self.updates()[i].name
    }

    /// A batch of which nothing was attempted yet.
    pub fn new(updates: Vec<PackageUpdate>) -> (r: Batch)
        ensures
            r.in_order(),
            r.updates() == views(updates@),
            r.done().len() == 0,
    {
        Batch { updates, attempts: Vec::new() }
    }

    /// The update to install next, whatever became of those before it; `None`
    /// when all were attempted.
    pub fn next(&self) -> (r: Option<&PackageUpdate>)
        ensures
            match r {
                Some(update) => self.done().len() < self.updates().len() && update@
                    == self.updates()[self.done().len() as int],
                None => self.done().len() == self.updates().len(),
            },
    {
        proof {
            use_type_invariant(self);
        }
        let at: usize = self.attempts.len();
        if at < self.updates.len() {
            Some(&self.updates[at])
        } else {
            None
        }
    }

    /// Takes the status of the next update's `cargo install`: the batch goes one
    /// update on, and an error is for the user to see.
    pub fn record(self, status: CargoStatus) -> (r: (Batch, Result<(), Error>))
        requires
            self.done().len() < self.updates().len(),
        ensures
            r.0.in_order(),
            r.0.updates() == self.updates(),
            ({
                let update = self.updates()[self.done().len() as int];
                &&& unit_view(r.1) == upgrade_outcome(update.name, status@)
                &&& r.0.done() == self.done().push(attempt_of(update, status@))
            }),
    {
        proof {
            use_type_invariant(&self);
        }
        let ghost before = self;
        let updates = self.updates;
        let mut attempts = self.attempts;
        let at: usize = attempts.len();
        let result = upgrade_result(&updates[at], status);
        let attempt = Attempt { name: updates[at].name.clone(), success: result.is_ok() };
        attempts.push(attempt);
        proof {
            assert(views(attempts@) =~= before.done().push(attempt@));
            assert forall|i: int| 0 <= i < views(attempts@).len() implies (
            #[trigger] views(attempts@)[i]).name == views(updates@)[i].name by {
                if i < before.done().len() {
                    assert(before.done()[i].name == before.updates()[i].name);
                }
            }
        }
        (Batch { updates, attempts }, result)
    }

    /// What the batch came to, once every update was attempted.
    pub fn finish(self) -> (r: UpgradeSummary)
        requires
            self.done().len() == self.updates().len(),
        ensures
            opt_text(r.line) == summary_line(self.done()),
            unit_view(r.result) == batch_result(self.done()),
    {
        summarize(self.attempts.as_slice())
    }
}

/// What a batch has attempted when it has got the given statuses, one after
/// another.
pub open spec fn attempted(
    updates: Seq<PackageUpdateView>,
    statuses: Seq<CargoStatusView>,
) -> Seq<AttemptView>
    decreases statuses.len(),
{
    if statuses.len() == 0 {
        Seq::empty()
    } else {
        attempted(updates, statuses.drop_last()).push(
            attempt_of(updates[statuses.len() - 1], statuses.last()),
        )
    }
}

/// One more status is one more attempt, that of the next update: what
/// [`Batch::record`] adds.
pub proof fn each_status_is_one_attempt(
    updates: Seq<PackageUpdateView>,
    statuses: Seq<CargoStatusView>,
    status: CargoStatusView,
)
    requires
        statuses.len() < updates.len(),
    ensures
        attempted(updates, statuses).len() == statuses.len(),
        attempted(updates, statuses.push(status)) == attempted(updates, statuses).push(
            attempt_of(updates[attempted(updates, statuses).len() as int], status),
        ),
{
    lemma_attempted(updates, statuses);
    assert(statuses.push(status).drop_last() =~= statuses);
}

proof fn lemma_attempted(updates: Seq<PackageUpdateView>, statuses: Seq<CargoStatusView>)
    requires
        statuses.len() <= updates.len(),
    ensures
        attempted(updates, statuses).len() == statuses.len(),
        forall|i: int|
            0 <= i < statuses.len() ==> #[trigger] attempted(updates, statuses)[i] == attempt_of(
                updates[i],
                statuses[i],
            ),
    decreases statuses.len(),
{
    if statuses.len() > 0 {
        lemma_attempted(updates, statuses.drop_last());
        let before = attempted(updates, statuses.drop_last());
        assert forall|i: int| 0 <= i < statuses.len() implies #[trigger] attempted(
            updates,
            statuses,
        )[i] == attempt_of(updates[i], statuses[i]) by {
            if i < before.len() {
                assert(attempted(updates, statuses)[i] == before[i]);
                assert(statuses.drop_last()[i] == statuses[i]);
            }
        }
    }
}

/// Whether a `cargo` process succeeded.
pub open spec fn succeeded(status: CargoStatusView) -> bool {
    status == (CargoStatusView::Ended { success: true })
}

/// Whatever became of each, a batch attempts every update once, in order: the
/// names attempted are the names of the updates. It succeeds exactly when every
/// process did, and counts each update as a success or a failure.
pub proof fn every_update_is_attempted(
    updates: Seq<PackageUpdateView>,
    statuses: Seq<CargoStatusView>,
)
    requires
        statuses.len() == updates.len(),
    ensures
        ({
            let attempts = attempted(updates, statuses);
            &&& attempts.map_values(|attempt: AttemptView| attempt.name) == update_names(updates)
            &&& forall|i: int|
                0 <= i < updates.len() ==> (#[trigger] attempts[i]).success == succeeded(
                    statuses[i],
                )
            &&& batch_result(attempts) is Ok == (forall|i: int|
                0 <= i < statuses.len() ==> succeeded(#[trigger] statuses[i]))
            &&& succeeded_in(attempts) + failed_in(attempts).len() == updates.len()
        }),
{
    let attempts = attempted(updates, statuses);
    lemma_attempted(updates, statuses);
    batch_succeeds_when_all_do(attempts);
    batch_counts_every_attempt(attempts);
    assert(attempts.map_values(|attempt: AttemptView| attempt.name) =~= update_names(updates));
    if batch_result(attempts) is Ok {
        assert forall|i: int| 0 <= i < statuses.len() implies succeeded(#[trigger] statuses[i]) by {
            assert(attempts[i].success);
        }
    }
}

/// A batch succeeds exactly when every attempt does.
pub proof fn batch_succeeds_when_all_do(attempts: Seq<AttemptView>)
    ensures
        batch_result(attempts) is Ok == (forall|i: int|
            0 <= i < attempts.len() ==> (#[trigger] attempts[i]).success),
    decreases attempts.len(),
{
    if attempts.len() > 0 {
        let before = attempts.drop_last();
        batch_succeeds_when_all_do(before);
        assert forall|i: int| 0 <= i < before.len() implies #[trigger] attempts[i]
            == before[i] by {}
        if forall|i: int| 0 <= i < attempts.len() ==> (#[trigger] attempts[i]).success {
            assert forall|i: int| 0 <= i < before.len() implies (#[trigger] before[i]).success by {
                assert(attempts[i].success);
            }
            assert(attempts[attempts.len() - 1].success);
        }
        if batch_result(attempts) is Ok {
            assert(attempts.last().success);
            assert forall|i: int| 0 <= i < attempts.len() implies (
            #[trigger] attempts[i]).success by {
                if i < before.len() {
                    assert(before[i].success);
                }
            }
        }
    }
}

/// Every attempt of a batch is counted once, as a success or a failure.
pub proof fn batch_counts_every_attempt(attempts: Seq<AttemptView>)
    ensures
        succeeded_in(attempts) + failed_in(attempts).len() == attempts.len(),
    decreases attempts.len(),
{
    if attempts.len() > 0 {
        batch_counts_every_attempt(attempts.drop_last());
    }
}

/// An upgrade installs the version that was found, for the crate that was
/// named last, and replays the recorded flags in between.
pub proof fn upgrade_replays_flags(update: PackageUpdateView, locked: bool)
    ensures
        ({
            let args = install_args(update, locked);
            let flags = replay_args(update.install);
            &&& args[0] == "install"@
            &&& args[2] == "--version"@
            &&& args[3] == "="@ + version_text(update.available)
            &&& args.last() == update.name
            &&& args.subrange(args.len() - 1 - flags.len(), args.len() - 1) == flags
        }),
{
    let args = install_args(update, locked);
    let flags = replay_args(update.install);
    assert(args.subrange(args.len() - 1 - flags.len(), args.len() - 1) =~= flags);
}

} // verus!
