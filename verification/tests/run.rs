use cargo_pkgman::launcher::{forwarded_status, launch_args, launch_failure};
use cargo_pkgman::run::{check_outcome, print_error, Action, Outcome, Run};
use cargo_pkgman::{
    print_help, run_with, Dialect, Error, InstallOptions, PackageUpdate, Version,
};

fn args(line: &str) -> Vec<String> {
    line.split_whitespace().map(String::from).collect()
}

fn actions(line: &str) -> Vec<Action> {
    run_with(args(line)).unwrap().actions
}

#[test]
fn install_goes_into_one_call() {
    let list = actions("--frontend apt -- apt -y install --features x a b");
    assert_eq!(list.len(), 1);
    assert!(matches!(
        &list[0],
        Action::Cargo { command, args }
            if command == "install" && *args == ["install", "--features", "x", "a", "b"]
    ));
    let list = actions("remove a b");
    assert!(matches!(
        &list[0],
        Action::Cargo { command, args }
            if command == "uninstall" && *args == ["uninstall", "a", "b"]
    ));
}

#[test]
fn dry_run_only_prints() {
    let list = actions("install --dry-run --locked a");
    assert_eq!(list.len(), 1);
    assert!(matches!(
        &list[0],
        Action::Print(line) if line == "Would run: cargo install --locked a"
    ));
    let list = actions("--frontend pacman -- pacman -Syup a");
    assert_eq!(list.len(), 2);
    assert!(matches!(&list[0], Action::Upgrade(options) if options.dry_run));
    assert!(matches!(
        &list[1],
        Action::Print(line) if line == "Would run: cargo install a"
    ));
}

#[test]
fn upgrade_may_be_followed_by_an_install() {
    let list = actions("--frontend=pacman -Syu a");
    assert_eq!(list.len(), 2);
    assert!(matches!(&list[0], Action::Upgrade(options) if !options.dry_run && !options.locked));
    assert!(matches!(&list[1], Action::Cargo { args, .. } if *args == ["install", "a"]));
    assert_eq!(actions("upgrade").len(), 1);
}

#[test]
fn locked_reaches_the_packages_after_an_upgrade() {
    let list = actions("--frontend pacman -- -Syu --locked a");
    assert_eq!(list.len(), 2);
    assert!(matches!(&list[0], Action::Upgrade(options) if options.locked));
    assert!(matches!(
        &list[1],
        Action::Cargo { args, .. } if *args == ["install", "--locked", "a"]
    ));
    let list = actions("upgrade --force a --locked --dry-run");
    assert!(matches!(
        &list[1],
        Action::Print(line) if line == "Would run: cargo install --locked --force a"
    ));
}

#[test]
fn other_operations_are_one_action() {
    assert!(matches!(&actions("search a b")[0], Action::Search(query) if query == "a b"));
    let info = actions("info a b");
    assert_eq!(info.len(), 2);
    assert!(matches!(&info[0], Action::Info(name) if name == "a"));
    assert!(matches!(&info[1], Action::Info(name) if name == "b"));
    assert!(matches!(&actions("list")[0], Action::List(None)));
    assert!(matches!(&actions("update")[0], Action::CheckUpdates));
    assert!(matches!(&actions("")[0], Action::Help));
    assert!(matches!(
        &actions("--frontend pacman -- -Q a")[0],
        Action::List(Some(names)) if *names == ["a"]
    ));
}

#[test]
fn unknown_command_prints_help() {
    let failure = run_with(args("frobnicate")).unwrap_err();
    assert_eq!(failure.lines, ["error: unknown command 'frobnicate'", ""]);
    assert_eq!(failure.help, Some(Dialect::Native));
    assert_eq!(failure.code, 2);
}

#[test]
fn unknown_frontend_prints_no_help() {
    let failure = run_with(args("--frontend pkg -- list")).unwrap_err();
    assert_eq!(failure.lines, ["error: unknown frontend 'pkg'"]);
    assert_eq!(failure.help, None);
    assert_eq!(failure.code, 2);
}

#[test]
fn errors_have_exit_codes() {
    let failure = print_error(&Error::Utf8, None);
    assert_eq!(failure.lines, ["error: argument is not valid UTF-8"]);
    assert_eq!(failure.help, None);
    assert_eq!(failure.code, 1);
    let failure = print_error(&Error::NotInstalled("a".to_string()), Some(Dialect::Apt));
    assert_eq!(failure.lines, ["error: package 'a' is not installed"]);
    assert_eq!(failure.help, None);
    assert_eq!(failure.code, 1);
    let failure = print_error(&Error::Usage("what".to_string()), Some(Dialect::Apt));
    assert_eq!(failure.help, Some(Dialect::Apt));
    assert_eq!(failure.code, 2);
    let source = std::io::Error::new(std::io::ErrorKind::Other, "disk on fire");
    let error = Error::io("could not read x".to_string(), source);
    assert_eq!(error.message(), "could not read x: disk on fire");
    assert_eq!(error.exit_code(), 1);
}

#[test]
fn dnf_check_update_exits_with_100() {
    let updates = vec![PackageUpdate {
        name: "a".into(),
        installed: Version::parse("1.0.0").unwrap(),
        available: Version::parse("1.0.1").unwrap(),
        registry: None,
        install: InstallOptions::default(),
    }];
    assert_eq!(check_outcome(Dialect::Dnf, &updates).exit_code(), 100);
    assert_eq!(check_outcome(Dialect::Dnf, &[]), Outcome::Success);
    assert_eq!(check_outcome(Dialect::Apt, &updates).exit_code(), 0);
}

#[test]
fn failed_action_ends_the_run() {
    let run = Run::new(run_with(args("--frontend pacman -- -Syu a")).unwrap());
    assert!(matches!(run.next(), Some(Action::Upgrade(_))));
    let error = run
        .record(Err(Error::Registry("down".to_string())))
        .unwrap_err();
    assert_eq!(error.message(), "down");

    let run = Run::new(run_with(args("--frontend pacman -- -Syu a")).unwrap());
    let run = run.record(Ok(Vec::new())).unwrap();
    assert!(matches!(run.next(), Some(Action::Cargo { .. })));
    let run = run.record(Ok(Vec::new())).unwrap();
    assert!(run.next().is_none());
    assert_eq!(run.finish(), Outcome::Success);
}

#[test]
fn check_decides_the_outcome_of_a_run() {
    let update = || PackageUpdate {
        name: "a".into(),
        installed: Version::parse("1.0.0").unwrap(),
        available: Version::parse("1.0.1").unwrap(),
        registry: None,
        install: InstallOptions::default(),
    };
    let outcome = |line: &str, found: Vec<PackageUpdate>| {
        let run = Run::new(run_with(args(line)).unwrap());
        run.record(Ok(found)).unwrap().finish()
    };
    let check = "--frontend dnf -- check-update";
    assert_eq!(outcome(check, vec![update()]), Outcome::UpdatesAvailable);
    assert_eq!(outcome(check, Vec::new()), Outcome::Success);
    assert_eq!(outcome("update", vec![update()]), Outcome::Success);
    assert_eq!(outcome("--frontend dnf -- list", Vec::new()), Outcome::Success);
}

#[test]
fn help_names_its_frontend() {
    assert!(print_help(Dialect::Native).starts_with("cargo pm - package manager"));
    assert!(print_help(Dialect::Pacman).starts_with("cargo pacman\n\n"));
    assert!(print_help(Dialect::Apt).starts_with("cargo apt\n\n"));
    assert!(print_help(Dialect::Dnf).ends_with("when upgrades are available."));
}

#[test]
fn launchers_select_their_frontend() {
    assert_eq!(launch_args("apt"), ["--frontend", "apt", "--"]);
    for dialect in [Dialect::Native, Dialect::Pacman, Dialect::Apt, Dialect::Dnf] {
        let name = dialect.subcommand();
        assert_eq!(Dialect::from_name(name), Some(dialect));
        let mut line = launch_args(name);
        line.extend([name.to_string(), "--help".to_string()]);
        let command = run_with(line).unwrap();
        assert_eq!(command.dialect, dialect);
        assert!(matches!(command.actions[0], Action::Help));
    }
    assert_eq!(
        launch_failure("gone"),
        [
            "error: could not run cargo-pkgman: gone",
            "note: reinstall it with `cargo install cargo-pkgman`",
        ]
    );
}

#[test]
fn forwarded_status_fits_a_byte() {
    assert_eq!(forwarded_status(Some(0)), 0);
    assert_eq!(forwarded_status(Some(255)), 255);
    assert_eq!(forwarded_status(Some(256)), 1);
    assert_eq!(forwarded_status(Some(-1)), 1);
    assert_eq!(forwarded_status(None), 1);
}
