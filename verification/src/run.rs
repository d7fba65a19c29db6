//! From a command line to what is to be done, and from there to the exit
//! status.

use vstd::prelude::*;

use crate::arguments::has_word;
use crate::cli::{only_plans, parse, parsed};
use crate::dialect::{preprocess, preprocessed, Dialect};
use crate::error::{exit_status, result_view, shows, Error, ErrorView};
use crate::operation::{Operation, OperationView};
use crate::order::views;
use crate::packages::{push_arg, push_args};
use crate::text::{concat2, join, joined, texts};
use crate::updates::PackageUpdate;
use crate::upgrades::UpgradeOptions;

verus! {

/// Something to do.
#[derive(Debug)]
pub enum Action {
    /// Print a line.
    Print(String),
    /// Run `cargo` and fail if it does.
    Cargo {
        /// The subcommand.
        command: String,
        /// All arguments, the subcommand first.
        args: Vec<String>,
    },
    /// Look for updates and print them.
    CheckUpdates,
    /// Upgrade every outdated crate.
    Upgrade(UpgradeOptions),
    /// `cargo search`.
    Search(String),
    /// `cargo info` for a package.
    Info(String),
    /// List installed packages, all or the named ones.
    List(Option<Vec<String>>),
    /// Print the frontend's help.
    Help,
}

/// The value of an [`Action`].
#[verifier::ext_equal]
pub enum ActionView {
    /// See [`Action::Print`].
    Print(Seq<char>),
    /// See [`Action::Cargo`].
    Cargo { command: Seq<char>, args: Seq<Seq<char>> },
    /// See [`Action::CheckUpdates`].
    CheckUpdates,
    /// See [`Action::Upgrade`].
    Upgrade { dry_run: bool, locked: bool },
    /// See [`Action::Search`].
    Search(Seq<char>),
    /// See [`Action::Info`].
    Info(Seq<char>),
    /// See [`Action::List`].
    List(Option<Seq<Seq<char>>>),
    /// See [`Action::Help`].
    Help,
}

impl View for Action {
    type V = ActionView;

    open spec fn view(&self) -> ActionView {
        match *self {
            Action::Print(line) => ActionView::Print(line@),
            Action::Cargo { command, args } => ActionView::Cargo {
                command: command@,
                args: texts(args@),
            },
            Action::CheckUpdates => ActionView::CheckUpdates,
            Action::Upgrade(options) => ActionView::Upgrade {
                dry_run: options.dry_run,
                locked: options.locked,
            },
            Action::Search(query) => ActionView::Search(query@),
            Action::Info(package) => ActionView::Info(package@),
            Action::List(None) => ActionView::List(None),
            Action::List(Some(names)) => ActionView::List(Some(texts(names@))),
            Action::Help => ActionView::Help,
        }
    }
}

/// A single `cargo` call for some packages: in a dry run it is only shown.
pub open spec fn cargo_call(
    command: Seq<char>,
    extra: Seq<Seq<char>>,
    packages: Seq<Seq<char>>,
    dry_run: bool,
) -> ActionView {
    let args = seq![command] + extra + packages;
    if dry_run {
        ActionView::Print("Would run: "@ + joined(seq!["cargo"@] + args, " "@))
    } else {
        ActionView::Cargo { command, args }
    }
}

/// The flags of an installation, with `--locked` in front where it is wanted and
/// not among them.
pub open spec fn with_locked(flags: Seq<Seq<char>>, locked: bool) -> Seq<Seq<char>> {
    if locked && !flags.contains("--locked"@) {
        seq!["--locked"@] + flags
    } else {
        flags
    }
}

/// What an operation comes down to, in order.
pub open spec fn actions_of(operation: OperationView) -> Seq<ActionView> {
    match operation {
        OperationView::Install { packages, cargo_args, dry_run } => seq![
            cargo_call("install"@, cargo_args, packages, dry_run),
        ],
        OperationView::Remove { packages, cargo_args, dry_run } => seq![
            cargo_call("uninstall"@, cargo_args, packages, dry_run),
        ],
        OperationView::CheckUpdates => seq![ActionView::CheckUpdates],
        OperationView::Upgrade { dry_run, locked, also_install, install_args } => {
            let upgrade = seq![ActionView::Upgrade { dry_run, locked }];
            if also_install.len() == 0 {
                upgrade
            } else {
                upgrade.push(
                    cargo_call("install"@, with_locked(install_args, locked), also_install, dry_run),
                )
            }
        },
        OperationView::Search(query) => seq![ActionView::Search(query)],
        OperationView::Info(packages) => packages.map_values(
            |package: Seq<char>| ActionView::Info(package),
        ),
        OperationView::List { query } => seq![ActionView::List(query)],
        OperationView::Help => seq![ActionView::Help],
    }
}

fn pass_locked(flags: Vec<String>, locked: bool) -> (r: Vec<String>)
    ensures
        texts(r@) == with_locked(texts(flags@), locked),
{
    let mut flags = flags;
    if locked && !has_word(flags.as_slice(), "--locked") {
        let ghost before = texts(flags@);
        flags.insert(0, "--locked".to_string());
        assert(texts(flags@) =~= seq!["--locked"@] + before);
    }
    flags
}

/// A single `cargo` call for some packages.
fn run_cargo(command: &str, extra: &[String], packages: &[String], dry_run: bool) -> (r: Action)
    ensures
        r@ == cargo_call(command@, texts(extra@), texts(packages@), dry_run),
{
    let mut args: Vec<String> = Vec::new();
    assert(texts(args@) =~= Seq::<Seq<char>>::empty());
    push_arg(&mut args, command);
    assert(texts(args@) =~= seq![command@]);
    push_args(&mut args, extra);
    push_args(&mut args, packages);
    if !dry_run {
        return Action::Cargo { command: command.to_string(), args };
    }
    let mut shown: Vec<String> = Vec::new();
    assert(texts(shown@) =~= Seq::<Seq<char>>::empty());
    push_arg(&mut shown, "cargo");
    assert(texts(shown@) =~= seq!["cargo"@]);
    push_args(&mut shown, args.as_slice());
    Action::Print(concat2("Would run: ", join(shown.as_slice(), " ").as_str()))
}

/// What an operation comes down to.
pub fn actions(operation: Operation) -> (r: Vec<Action>)
    ensures
        views(r@) == actions_of(operation@),
{
    let mut list: Vec<Action> = Vec::new();
    match operation {
        Operation::Install { packages, cargo_args, dry_run } => {
            list.push(
                run_cargo("install", cargo_args.as_slice(), packages.as_slice(), dry_run),
            );
        },
        Operation::Remove { packages, cargo_args, dry_run } => {
            list.push(
                run_cargo("uninstall", cargo_args.as_slice(), packages.as_slice(), dry_run),
            );
        },
        Operation::CheckUpdates => {
            list.push(Action::CheckUpdates);
        },
        Operation::Upgrade { dry_run, locked, also_install, install_args } => {
            list.push(Action::Upgrade(UpgradeOptions { dry_run, locked }));
            if also_install.len() > 0 {
                let flags = pass_locked(install_args, locked);
                list.push(
                    run_cargo(
                        "install",
                        flags.as_slice(),
                        also_install.as_slice(),
                        dry_run,
                    ),
                );
            }
        },
        Operation::Search(query) => {
            list.push(Action::Search(query));
        },
        Operation::Info(packages) => {
            let mut i: usize = 0;
            while i < packages.len()
                invariant
                    i <= packages@.len(),
                    list@.len() == i,
                    forall|j: int|
                        0 <= j < i ==> (#[trigger] list@[j])@ == ActionView::Info(packages@[j]@),
                decreases packages@.len() - i,
            {
                list.push(Action::Info(packages[i].clone()));
                i = i + 1;
            }
        },
        Operation::List { query } => {
            list.push(Action::List(query));
        },
        Operation::Help => {
            list.push(Action::Help);
        },
    }
    assert(views(list@) =~= actions_of(operation@));
    list
}

/// A command line that was understood.
#[derive(Debug)]
pub struct Command {
    /// The frontend.
    pub dialect: Dialect,
    /// What is to be done.
    pub actions: Vec<Action>,
}

/// What a run that fails prints and returns.
#[derive(Debug)]
pub struct Failure {
    /// The lines for standard error.
    pub lines: Vec<String>,
    /// The frontend whose help follows.
    pub help: Option<Dialect>,
    /// The exit status.
    pub code: u8,
}

/// Whether `failure` reports `error` as a run does that stops with it, and
/// gives help for the given frontend.
pub open spec fn reports(error: ErrorView, help: Option<Dialect>, failure: Failure) -> bool {
    &&& failure.help == help
    &&& failure.code == exit_status(error)
    &&& exists|message: Seq<char>| #[trigger]
        shows(error, message) && texts(failure.lines@) == (if help is Some {
            seq!["error: "@ + message, ""@]
        } else {
            seq!["error: "@ + message]
        })
}

fn report(error: &Error, help: Option<Dialect>) -> (r: Failure)
    ensures
        reports(error@, help, r),
{
    let message = error.message();
    let mut lines: Vec<String> = Vec::new();
    assert(texts(lines@) =~= Seq::<Seq<char>>::empty());
    push_arg(&mut lines, concat2("error: ", message.as_str()).as_str());
    if help.is_some() {
        push_arg(&mut lines, "");
    }
    let failure = Failure { lines, help, code: error.exit_code() };
    proof {
        assert(texts(lines@) =~= (if help is Some {
            seq!["error: "@ + message@, ""@]
        } else {
            seq!["error: "@ + message@]
        }));
        assert(shows(error@, message@));
    }
    failure
}

/// The frontend whose help follows an error: help follows a usage error of a
/// known frontend.
pub open spec fn help_after(error: ErrorView, dialect: Option<Dialect>) -> Option<Dialect> {
    if error is Usage {
        dialect
    } else {
        None
    }
}

/// What a run that stops with `error` prints and returns. Help follows a usage
/// error of a known frontend.
pub fn print_error(error: &Error, dialect: Option<Dialect>) -> (r: Failure)
    ensures
        reports(error@, help_after(error@, dialect), r),
{
    let help = match error {
        Error::Usage(_) => dialect,
        _ => None,
    };
    report(error, help)
}

/// What a command line asks for: the frontend is told, its arguments are
/// parsed, and the operation is broken down. The process name is not among
/// `args`.
pub fn run_with(args: Vec<String>) -> (r: Result<Command, Failure>)
    ensures
        match preprocessed(texts(args@)) {
            Err(error) => r matches Err(failure) && reports(error, None, failure),
            Ok((dialect, rest)) => match parsed(dialect, rest) {
                Err(error) => r matches Err(failure) && reports(error, Some(dialect), failure),
                Ok(operation) => r matches Ok(command) && command.dialect == dialect && views(
                    command.actions@,
                ) == actions_of(operation),
            },
        },
{
    let (dialect, rest) = match preprocess(args) {
        Ok(found) => found,
        Err(error) => return Err(print_error(&error, None)),
    };
    match parse(dialect, rest.as_slice()) {
        Ok(operation) => Ok(Command { dialect, actions: actions(operation) }),
        Err(error) => Err(report(&error, Some(dialect))),
    }
}

/// Outcome of a successful run.
#[derive(Debug, Clone, Copy, PartialEq, Eq, Structural)]
pub enum Outcome {
    /// Nothing more to say.
    Success,
    /// `dnf check-update` exits 100 when upgrades are available.
    UpdatesAvailable,
}

/// The exit status of an outcome.
pub open spec fn outcome_status(outcome: Outcome) -> u8 {
    match outcome {
        Outcome::Success => 0,
        Outcome::UpdatesAvailable => 100,
    }
}

impl Outcome {
    /// The exit status.
    pub fn exit_code(self) -> (r: u8)
        ensures
            r == outcome_status(self),
    {
        match self {
            Outcome::Success => 0,
            Outcome::UpdatesAvailable => 100,
        }
    }
}

/// The outcome of a check that found the given number of updates.
pub open spec fn outcome_of_check(dialect: Dialect, updates: nat) -> Outcome {
    if dialect == Dialect::Dnf && updates > 0 {
        Outcome::UpdatesAvailable
    } else {
        Outcome::Success
    }
}

/// The outcome of a check for updates.
pub fn check_outcome(dialect: Dialect, updates: &[PackageUpdate]) -> (r: Outcome)
    ensures
        r == outcome_of_check(dialect, updates@.len()),
{
    if dialect == Dialect::Dnf && updates.len() > 0 {
        Outcome::UpdatesAvailable
    } else {
        Outcome::Success
    }
}

/// A run of a command: its actions are carried out one after another, and the
/// first one that fails ends the run.
#[derive(Debug)]
pub struct Run {
    dialect: Dialect,
    actions: Vec<Action>,
    done: usize,
    outcome: Outcome,
}

/// The value of a [`Run`].
pub struct RunView {
    /// The frontend.
    pub dialect: Dialect,
    /// All actions of the run.
    pub actions: Seq<ActionView>,
    /// How many actions were carried out.
    pub done: nat,
    /// The outcome so far.
    pub outcome: Outcome,
}

impl View for Run {
    type V = RunView;

    closed spec fn view(&self) -> RunView {
        RunView {
            dialect: self.dialect,
            actions: views(self.actions@),
            done: self.done as nat,
            outcome: self.outcome,
        }
    }
}

/// A run of which nothing was carried out yet.
pub open spec fn started(dialect: Dialect, actions: Seq<ActionView>) -> RunView {
    RunView { dialect, actions, done: 0, outcome: Outcome::Success }
}

/// A run after its next action: an error is the error of the run. A check for
/// updates decides the outcome by the number of updates that it found; every
/// other action leaves it as it is.
pub open spec fn after_action(run: RunView, result: Result<nat, ErrorView>) -> Result<
    RunView,
    ErrorView,
> {
    match result {
        Err(error) => Err(error),
        Ok(updates) => Ok(
            RunView {
                done: run.done + 1,
                outcome: if run.actions[run.done as int] is CheckUpdates {
                    outcome_of_check(run.dialect, updates)
                } else {
                    run.outcome
                },
                ..run
            },
        ),
    }
}

/// What an action came to, with the number of updates that it found.
pub open spec fn action_result(result: Result<Vec<PackageUpdate>, Error>) -> Result<
    nat,
    ErrorView,
> {
    match result {
        Ok(updates) => Ok(updates@.len()),
        Err(error) => Err(error@),
    }
}

impl Run {
    #[verifier::type_invariant]
    spec fn well_formed(self) -> bool {
        self.done <= self.actions@.len()
    }

    /// A run of which nothing was carried out yet.
    pub fn new(command: Command) -> (r: Run)
        ensures
            r@ == started(command.dialect, views(command.actions@)),
    {
        Run {
            dialect: command.dialect,
            actions: command.actions,
            done: 0,
            outcome: Outcome::Success,
        }
    }

    /// The action to carry out next; `None` when the run is over.
    pub fn next(&self) -> (r: Option<&Action>)
        ensures
            match r {
                Some(action) => self@.done < self@.actions.len() && action@
                    == self@.actions[self@.done as int],
                None => self@.done == self@.actions.len(),
            },
    {
        proof {
            use_type_invariant(self);
        }
        if self.done < self.actions.len() {
            Some(&self.actions[self.done])
        } else {
            None
        }
    }

    /// Takes what the next action came to: the updates that a check found, none
    /// of any other action, or an error. An error ends the run.
    pub fn record(self, result: Result<Vec<PackageUpdate>, Error>) -> (r: Result<Run, Error>)
        requires
            self@.done < self@.actions.len(),
        ensures
            result_view(r) == after_action(self@, action_result(result)),
    {
        proof {
            use_type_invariant(&self);
        }
        let updates = match result {
            Ok(updates) => updates,
            Err(error) => return Err(error),
        };
        let total: usize = self.actions.len();
        let outcome = match &self.actions[self.done] {
            Action::CheckUpdates => check_outcome(self.dialect, updates.as_slice()),
            _ => self.outcome,
        };
        assert(self.done < total);
        Ok(Run { dialect: self.dialect, actions: self.actions, done: self.done + 1, outcome })
    }

    /// The outcome, once every action was carried out.
    pub fn finish(self) -> (r: Outcome)
        requires
            self@.done == self@.actions.len(),
        ensures
            r == self@.outcome,
    {
        self.outcome
    }
}

/// Where a run stands when its actions came to the given results, one after
/// another.
pub open spec fn after_actions(run: RunView, results: Seq<Result<nat, ErrorView>>) -> Result<
    RunView,
    ErrorView,
>
    decreases results.len(),
{
    if results.len() == 0 {
        Ok(run)
    } else {
        match after_action(run, results[0]) {
            Ok(next) => after_actions(next, results.skip(1)),
            Err(error) => Err(error),
        }
    }
}

/// The first action that fails ends a run with its error, whatever the actions
/// behind it would have come to.
pub proof fn first_error_ends_the_run(
    run: RunView,
    before: Seq<Result<nat, ErrorView>>,
    error: ErrorView,
    later: Seq<Result<nat, ErrorView>>,
)
    requires
        forall|i: int| 0 <= i < before.len() ==> #[trigger] before[i] is Ok,
    ensures
        after_actions(run, before + seq![Err(error)] + later) == Err::<RunView, ErrorView>(error),
    decreases before.len(),
{
    let all = before + seq![Err(error)] + later;
    if before.len() == 0 {
        assert(all[0] == Err::<nat, ErrorView>(error));
    } else {
        assert(all[0] == before[0]);
        assert(all.skip(1) =~= before.skip(1) + seq![Err(error)] + later);
        assert forall|i: int| 0 <= i < before.skip(1).len() implies #[trigger] before.skip(1)[i]
            is Ok by {
            assert(before.skip(1)[i] == before[i + 1]);
        }
        let next = after_action(run, before[0])->Ok_0;
        first_error_ends_the_run(next, before.skip(1), error, later);
    }
}

/// A run whose actions all succeed is over after the last one. Its outcome is
/// that of the check for updates if it is one, and success otherwise.
pub proof fn successful_run_has_its_outcome(
    dialect: Dialect,
    operation: OperationView,
    results: Seq<Result<nat, ErrorView>>,
)
    requires
        results.len() == actions_of(operation).len(),
        forall|i: int| 0 <= i < results.len() ==> #[trigger] results[i] is Ok,
    ensures
        after_actions(started(dialect, actions_of(operation)), results) == Ok::<
            RunView,
            ErrorView,
        >(
            RunView {
                dialect,
                actions: actions_of(operation),
                done: results.len(),
                outcome: if operation is CheckUpdates {
                    outcome_of_check(dialect, results[0]->Ok_0)
                } else {
                    Outcome::Success
                },
            },
        ),
{
    let run = started(dialect, actions_of(operation));
    if operation is CheckUpdates {
        let next = after_action(run, results[0])->Ok_0;
        assert(after_actions(next, results.skip(1)) == Ok::<RunView, ErrorView>(next));
    } else {
        lemma_outcome_stays(run, results);
    }
}

proof fn lemma_outcome_stays(run: RunView, results: Seq<Result<nat, ErrorView>>)
    requires
        run.done + results.len() == run.actions.len(),
        forall|i: int| 0 <= i < results.len() ==> #[trigger] results[i] is Ok,
        forall|i: int|
            0 <= i < run.actions.len() ==> !(#[trigger] run.actions[i] is CheckUpdates),
    ensures
        after_actions(run, results) == Ok::<RunView, ErrorView>(
            RunView { done: run.actions.len(), ..run },
        ),
    decreases results.len(),
{
    if results.len() > 0 {
        assert forall|i: int| 0 <= i < results.skip(1).len() implies #[trigger] results.skip(1)[i]
            is Ok by {
            assert(results.skip(1)[i] == results[i + 1]);
        }
        let next = after_action(run, results[0])->Ok_0;
        lemma_outcome_stays(next, results.skip(1));
    }
}

/// An upgrade runs first. If it fails, the run ends with its error and nothing is
/// installed after it; if it succeeds, the packages to install go into one
/// `cargo install`, or into none if there are none.
pub proof fn failed_upgrade_installs_nothing(
    dialect: Dialect,
    dry_run: bool,
    locked: bool,
    also_install: Seq<Seq<char>>,
    install_args: Seq<Seq<char>>,
    result: Result<nat, ErrorView>,
)
    ensures
        ({
            let operation = OperationView::Upgrade { dry_run, locked, also_install, install_args };
            let actions = actions_of(operation);
            &&& actions[0] == (ActionView::Upgrade { dry_run, locked })
            &&& match after_action(started(dialect, actions), result) {
                Err(error) => result == Err::<nat, ErrorView>(error),
                Ok(next) => result is Ok && if also_install.len() == 0 {
                    next.done == next.actions.len()
                } else {
                    next.done + 1 == next.actions.len() && next.actions[next.done as int]
                        == cargo_call(
                        "install"@,
                        with_locked(install_args, locked),
                        also_install,
                        dry_run,
                    )
                },
            }
        }),
{
}

/// A dry run never runs `cargo` to change anything: its calls are only shown,
/// and an upgrade is told to be a dry run.
pub proof fn dry_run_changes_nothing(operation: OperationView)
    requires
        only_plans(operation),
    ensures
        forall|i: int|
            0 <= i < actions_of(operation).len() ==> match #[trigger] actions_of(operation)[i] {
                ActionView::Cargo { .. } => false,
                ActionView::Upgrade { dry_run, .. } => dry_run,
                _ => true,
            },
{
}

/// Packages to install or remove go into a single `cargo` call, behind all
/// forwarded flags.
pub proof fn packages_share_one_call(
    command: Seq<char>,
    extra: Seq<Seq<char>>,
    packages: Seq<Seq<char>>,
)
    ensures
        cargo_call(command, extra, packages, false) matches ActionView::Cargo { args, .. } && {
            &&& args[0] == command
            &&& args.subrange(1, (1 + extra.len()) as int) == extra
            &&& args.skip((1 + extra.len()) as int) == packages
        },
{
    let args = seq![command] + extra + packages;
    assert(args.subrange(1, (1 + extra.len()) as int) =~= extra);
    assert(args.skip((1 + extra.len()) as int) =~= packages);
}

/// Whether an action passes `--locked` to every `cargo install` that it runs.
pub open spec fn installs_locked(action: ActionView) -> bool {
    match action {
        ActionView::Cargo { command, args } => command == "install"@ ==> args.contains(
            "--locked"@,
        ),
        ActionView::Upgrade { locked, .. } => locked,
        _ => true,
    }
}

/// `--locked` reaches every `cargo install`, wherever it stands and with every
/// frontend: that of an installation, those of an upgrade, and that of the
/// packages to install after an upgrade.
pub proof fn locked_is_always_respected(dialect: Dialect, args: Seq<Seq<char>>)
    requires
        args.contains("--locked"@),
    ensures
        parsed(dialect, args) matches Ok(operation) ==> forall|i: int|
            0 <= i < actions_of(operation).len() ==> installs_locked(
                #[trigger] actions_of(operation)[i],
            ),
{
    reveal_strlit("install");
    reveal_strlit("uninstall");
    assert("install"@.len() != "uninstall"@.len());
    if let Ok(operation) = parsed(dialect, args) {
        match operation {
            OperationView::Install { packages, cargo_args, .. } => {
                assert(cargo_args.contains("--locked"@) || cargo_args[0] == "--locked"@
                    && cargo_args.len() > 0);
                lemma_call_contains("install"@, cargo_args, packages, "--locked"@);
            },
            OperationView::Upgrade { also_install, install_args, locked, .. } => {
                let flags = with_locked(install_args, locked);
                assert(flags.contains("--locked"@) || flags[0] == "--locked"@ && flags.len() > 0);
                lemma_call_contains("install"@, flags, also_install, "--locked"@);
            },
            _ => {},
        }
    }
}

proof fn lemma_call_contains(
    command: Seq<char>,
    extra: Seq<Seq<char>>,
    packages: Seq<Seq<char>>,
    flag: Seq<char>,
)
    requires
        extra.contains(flag),
    ensures
        (seq![command] + extra + packages).contains(flag),
{
    let i = choose|i: int| 0 <= i < extra.len() && extra[i] == flag;
    assert((seq![command] + extra + packages)[i + 1] == flag);
}

} // verus!
