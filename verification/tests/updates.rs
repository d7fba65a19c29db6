use cargo_pkgman::cargo::{call_result, info_result, CargoStatus};
use cargo_pkgman::packages::parse_key;
use cargo_pkgman::updates::{
    assign_workers, check_target, plan_lookups, skipped_warning, Checked, Target,
};
use cargo_pkgman::upgrades::{announce, preview, summarize, upgrade_result, Attempt, Batch};
use cargo_pkgman::{
    available_updates, print_updates, upgrade_args, Error, InstallOptions, InstalledPackage,
    PackageUpdate, Registries, Registry, UpgradeOptions, Version,
};

fn package(name: &str, version: &str, source: &str) -> InstalledPackage {
    parse_key(&format!("{name} {version} ({source})")).unwrap()
}

fn crates_io(name: &str, version: &str) -> InstalledPackage {
    package(
        name,
        version,
        "registry+https://github.com/rust-lang/crates.io-index",
    )
}

fn checked(name: &str, version: &str, found: Result<Option<&str>, &str>) -> Checked {
    Checked {
        package: crates_io(name, version),
        registry: Registry::crates_io(),
        result: match found {
            Ok(version) => Ok(version.map(|version| Version::parse(version).unwrap())),
            Err(message) => Err(message.to_string()),
        },
    }
}

fn update(name: &str, installed: &str, available: &str) -> PackageUpdate {
    PackageUpdate {
        name: name.into(),
        installed: Version::parse(installed).unwrap(),
        available: Version::parse(available).unwrap(),
        registry: None,
        install: InstallOptions::default(),
    }
}

fn attempt(name: &str, success: bool) -> Attempt {
    Attempt {
        name: name.to_string(),
        success,
    }
}

#[test]
fn upgrade_args_replay_install_flags() {
    let update = PackageUpdate {
        name: "ripgrep".into(),
        installed: Version::parse("14.1.0").unwrap(),
        available: Version::parse("14.1.1").unwrap(),
        registry: None,
        install: InstallOptions {
            features: vec!["pcre2".into()],
            no_default_features: true,
            bins: vec!["rg".into()],
            ..InstallOptions::default()
        },
    };
    let args = upgrade_args(&update, true);
    assert_eq!(
        args,
        [
            "install",
            "--force",
            "--version",
            "=14.1.1",
            "--locked",
            "--no-default-features",
            "--features",
            "pcre2",
            "--bin",
            "rg",
            "ripgrep",
        ]
    );
}

#[test]
fn upgrade_args_name_the_registry() {
    let mut update = update("a", "1.0.0", "1.0.1");
    update.registry = Some("mirror".to_string());
    assert_eq!(
        upgrade_args(&update, false),
        ["install", "--force", "--version", "=1.0.1", "--registry", "mirror", "a"]
    );
}

#[test]
fn packages_that_are_not_from_a_registry_are_skipped() {
    let packages = vec![
        crates_io("a", "1.0.0"),
        package("b", "1.0.0", "git+https://x/b#1"),
    ];
    assert_eq!(
        skipped_warning(&packages).as_deref(),
        Some("warning: skipped 1 package not from a registry (git/path)")
    );
    let packages = vec![
        package("b", "1.0.0", "git+https://x/b#1"),
        package("c", "1.0.0", "path+file:///c"),
    ];
    assert_eq!(
        skipped_warning(&packages).as_deref(),
        Some("warning: skipped 2 packages not from a registry (git/path)")
    );
    assert_eq!(skipped_warning(&[crates_io("a", "1.0.0")]), None);
    let (targets, problems) = plan_lookups(packages, &Registries::new()).unwrap();
    assert!(targets.is_empty());
    assert!(problems.is_empty());
}

#[test]
fn git_registry_is_a_problem_and_the_rest_is_checked() {
    let packages = vec![
        package("a", "1.0.0", "registry+https://git.example/index"),
        crates_io("b", "1.0.0"),
    ];
    let (targets, problems) = plan_lookups(packages, &Registries::new()).unwrap();
    assert_eq!(targets.len(), 1);
    assert_eq!(targets[0].package.name, "b");
    assert_eq!(targets[0].registry, Registry::crates_io());
    assert_eq!(
        problems,
        ["a: registry 'https://git.example/index' uses a git index, which cargo-pkgman cannot query"]
    );
}

#[test]
fn nothing_left_to_ask_is_a_failed_run() {
    let packages = vec![package("a", "1.0.0", "registry+https://git.example/index")];
    let error = plan_lookups(packages, &Registries::new()).unwrap_err();
    assert!(matches!(error, Error::Registry(_)));
    assert!(error.message().starts_with("a: registry 'https://git.example/index'"));
}

#[test]
fn lookups_are_dealt_in_turn() {
    let target = |name: &str| Target {
        package: crates_io(name, "1.0.0"),
        registry: Registry::crates_io(),
    };
    let buckets = assign_workers(vec![target("a"), target("b"), target("c")]);
    let names: Vec<Vec<String>> = buckets
        .iter()
        .map(|bucket| bucket.iter().map(|t| t.package.name.clone()).collect())
        .collect();
    assert_eq!(names, [vec!["a", "c"], vec!["b"]]);
    assert_eq!(assign_workers(vec![target("a")]).len(), 1);
    assert_eq!(assign_workers(Vec::new()).len(), 1);
}

#[test]
fn prereleases_count_for_installed_prereleases() {
    let body = "{\"vers\":\"1.0.0\"}\n{\"vers\":\"2.0.0-rc.2\"}\n";
    let check = |version: &str| {
        let target = Target {
            package: crates_io("a", version),
            registry: Registry::crates_io(),
        };
        let found = check_target(target, Ok(Some(body.to_string())));
        found.result.unwrap().unwrap().text()
    };
    assert_eq!(check("0.9.0"), "1.0.0");
    assert_eq!(check("2.0.0-rc.1"), "2.0.0-rc.2");
}

#[test]
fn failed_lookup_names_its_package() {
    let target = |name: &str| Target {
        package: crates_io(name, "1.0.0"),
        registry: Registry::crates_io(),
    };
    let found = check_target(target("a"), Err(Error::Registry("down".to_string())));
    assert_eq!(found.result.unwrap_err(), "a: down");
    let found = check_target(target("b"), Ok(Some("nope".to_string())));
    assert!(found
        .result
        .unwrap_err()
        .starts_with("b: malformed index entry: "));
    let found = check_target(target("c"), Ok(None));
    assert_eq!(found.result.unwrap(), None);
}

#[test]
fn updates_are_newer_and_sorted() {
    let results = vec![
        checked("zoo", "1.0.0", Ok(Some("1.0.1"))),
        checked("same", "1.0.0", Ok(Some("1.0.0"))),
        checked("older", "2.0.0", Ok(Some("1.9.0"))),
        checked("gone", "1.0.0", Ok(None)),
        checked("down", "1.0.0", Err("down: timed out")),
        checked("ant", "1.0.0", Ok(Some("2.0.0"))),
    ];
    let report = available_updates(results, vec!["x: git".to_string()]).unwrap();
    let names: Vec<String> = report.updates.iter().map(|u| u.name.clone()).collect();
    assert_eq!(names, ["ant", "zoo"]);
    assert_eq!(
        report.warnings,
        ["warning: x: git", "warning: down: timed out", ""]
    );
}

#[test]
fn all_lookups_failing_is_an_error() {
    let results = vec![
        checked("a", "1.0.0", Err("a: timed out")),
        checked("b", "1.0.0", Err("b: refused")),
    ];
    let error = available_updates(results, vec!["x: git".to_string()]).unwrap_err();
    assert_eq!(error.message(), "a: timed out");
}

#[test]
fn nothing_to_look_up_is_a_success() {
    let packages = vec![package("b", "1.0.0", "git+https://x/b#1")];
    let (targets, problems) = plan_lookups(packages, &Registries::new()).unwrap();
    assert!(targets.is_empty());
    let report = available_updates(Vec::new(), problems).unwrap();
    assert!(report.updates.is_empty());
    assert!(report.warnings.is_empty());
    let report = available_updates(Vec::new(), vec!["x: git".to_string()]).unwrap();
    assert!(report.updates.is_empty());
    assert_eq!(report.warnings, ["warning: x: git", ""]);
}

#[test]
fn quiet_run_has_no_warnings() {
    let results = vec![checked("a", "1.0.0", Ok(Some("1.0.0")))];
    let report = available_updates(results, Vec::new()).unwrap();
    assert!(report.updates.is_empty());
    assert!(report.warnings.is_empty());
}

#[test]
fn update_list_is_aligned() {
    assert_eq!(print_updates(&[]), ["All Cargo packages are up to date."]);
    let mut second = update("b", "1.0.0", "1.1.0");
    second.install.features = vec!["x".into(), "y".into()];
    second.install.all_features = true;
    let updates = vec![update("ripgrep", "14.1.0", "14.1.1"), second];
    assert_eq!(
        print_updates(&updates),
        [
            "2 packages can be upgraded:",
            "",
            "  ripgrep  14.1.0 -> 14.1.1",
            "  b        1.0.0 -> 1.1.0  [--all-features --features x,y]",
        ]
    );
    assert_eq!(
        print_updates(&updates[..1])[0],
        "1 package can be upgraded:"
    );
}

#[test]
fn width_counts_bytes_and_padding_counts_characters() {
    let updates = vec![update("añb", "1.0.0", "1.0.1"), update("ab", "1.0.0", "1.0.1")];
    let lines = print_updates(&updates);
    assert_eq!(lines[2], "  añb   1.0.0 -> 1.0.1");
    assert_eq!(lines[3], "  ab    1.0.0 -> 1.0.1");
}

#[test]
fn preview_stops_a_dry_run() {
    let updates = || vec![update("a", "1.0.0", "1.0.1")];
    let shown = preview(updates(), &UpgradeOptions::default());
    let batch = shown.batch.unwrap();
    assert_eq!(batch.next().unwrap().name, "a");
    assert_eq!(shown.lines.last().unwrap(), "");
    let dry = UpgradeOptions {
        dry_run: true,
        locked: false,
    };
    let shown = preview(updates(), &dry);
    assert!(shown.batch.is_none());
    assert_eq!(
        shown.lines.last().unwrap(),
        "Dry run; no packages were upgraded."
    );
    let shown = preview(Vec::new(), &UpgradeOptions::default());
    assert!(shown.batch.is_none());
    assert_eq!(shown.lines, ["All Cargo packages are up to date."]);
    assert_eq!(announce(&updates()[0]), ":: upgrading a 1.0.0 -> 1.0.1");
}

#[test]
fn batch_goes_on_after_a_failure() {
    let mut batch = Batch::new(vec![
        update("a", "1.0.0", "1.0.1"),
        update("b", "1.0.0", "1.0.1"),
        update("c", "1.0.0", "1.0.1"),
    ]);
    let mut names = Vec::new();
    let mut messages = Vec::new();
    while let Some(update) = batch.next() {
        names.push(update.name.clone());
        let status = match update.name.as_str() {
            "a" => CargoStatus::NotStarted("no cargo".to_string()),
            "b" => CargoStatus::Ended { success: false },
            _ => CargoStatus::Ended { success: true },
        };
        let (next, result) = batch.record(status);
        messages.push(result.map_err(|error| error.message()));
        batch = next;
    }
    assert_eq!(names, ["a", "b", "c"]);
    assert_eq!(
        messages,
        [
            Err("cargo install: failed to start while upgrading a: no cargo".to_string()),
            Err("cargo install: failed to upgrade b".to_string()),
            Ok(()),
        ]
    );
    let summary = batch.finish();
    assert_eq!(
        summary.line.as_deref(),
        Some("Upgraded 1 package; 2 failed.")
    );
    assert_eq!(
        summary.result.unwrap_err().message(),
        "upgraded 1 package; failed: a, b"
    );
}

#[test]
fn failed_upgrades_are_collected() {
    let summary = summarize(&[attempt("a", true), attempt("b", false), attempt("c", true)]);
    assert_eq!(
        summary.line.as_deref(),
        Some("Upgraded 2 packages; 1 failed.")
    );
    let error = summary.result.unwrap_err();
    assert_eq!(error.message(), "upgraded 2 packages; failed: b");
    assert_eq!(error.exit_code(), 1);
    assert!(matches!(
        error,
        Error::Upgrade {
            succeeded: 2,
            failed
        } if failed == ["b"]
    ));
}

#[test]
fn upgrade_summaries_count_packages() {
    let summary = summarize(&[attempt("a", true)]);
    assert_eq!(summary.line.as_deref(), Some("Upgraded 1 package."));
    assert!(summary.result.is_ok());
    let summary = summarize(&[attempt("a", false), attempt("b", false)]);
    assert_eq!(summary.line, None);
    assert_eq!(
        summary.result.unwrap_err().message(),
        "upgraded 0 packages; failed: a, b"
    );
}

#[test]
fn upgrade_errors_name_the_package() {
    let update = update("a", "1.0.0", "1.0.1");
    let error =
        upgrade_result(&update, CargoStatus::NotStarted("no cargo".to_string())).unwrap_err();
    assert_eq!(
        error.message(),
        "cargo install: failed to start while upgrading a: no cargo"
    );
    let error = upgrade_result(&update, CargoStatus::Ended { success: false }).unwrap_err();
    assert_eq!(error.message(), "cargo install: failed to upgrade a");
    assert!(upgrade_result(&update, CargoStatus::Ended { success: true }).is_ok());
}

#[test]
fn cargo_errors_name_the_command() {
    let error = call_result("search", CargoStatus::Ended { success: false }).unwrap_err();
    assert_eq!(error.message(), "cargo search: command failed");
    let error =
        call_result("search", CargoStatus::NotStarted("not found".to_string())).unwrap_err();
    assert_eq!(error.message(), "cargo search: not found");
    let error = info_result("a", CargoStatus::Ended { success: false }).unwrap_err();
    assert_eq!(error.message(), "cargo info: failed for a");
    assert!(info_result("a", CargoStatus::Ended { success: true }).is_ok());
}
