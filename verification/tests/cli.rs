use cargo_pkgman::arguments::split_packages_and_flags;
use cargo_pkgman::{parse, preprocess, Dialect, Error, Operation};

fn s(line: &str) -> Vec<String> {
    if line.is_empty() {
        Vec::new()
    } else {
        line.split_whitespace().map(String::from).collect()
    }
}

fn parse_line(dialect: Dialect, line: &str) -> Operation {
    parse(dialect, &s(line)).unwrap_or_else(|error| panic!("{line:?}: {}", error.message()))
}

#[test]
fn empty_is_help() {
    assert_eq!(parse_line(Dialect::Native, ""), Operation::Help);
    assert_eq!(parse_line(Dialect::Apt, "-y"), Operation::Help);
    assert_eq!(parse_line(Dialect::Dnf, "-y"), Operation::Help);
}

#[test]
fn native_install_version_spec_and_features() {
    let Operation::Install {
        packages,
        cargo_args,
        dry_run,
    } = parse_line(Dialect::Native, "install --features pcre2 ripgrep@14.1.1")
    else {
        panic!("expected install");
    };
    assert_eq!(packages, ["ripgrep@14.1.1"]);
    assert_eq!(cargo_args, ["--features", "pcre2"]);
    assert!(!dry_run);
}

#[test]
fn native_upgrade_dry_run_locked() {
    assert_eq!(
        parse_line(Dialect::Native, "upgrade --dry-run --locked"),
        Operation::Upgrade {
            dry_run: true,
            locked: true,
            also_install: vec![],
            install_args: vec![],
        }
    );
    assert_eq!(
        parse_line(Dialect::Native, "--dry-run upgrade"),
        Operation::Upgrade {
            dry_run: true,
            locked: false,
            also_install: vec![],
            install_args: vec![],
        }
    );
}

#[test]
fn native_git_install_without_package_name() {
    let Operation::Install {
        packages,
        cargo_args,
        ..
    } = parse_line(Dialect::Native, "install --git https://github.com/foo/bar")
    else {
        panic!("expected install");
    };
    assert!(packages.is_empty());
    assert_eq!(cargo_args, ["--git", "https://github.com/foo/bar"]);
}

#[test]
fn pacman_clustered_and_split_flags() {
    let upgrade = Operation::Upgrade {
        dry_run: false,
        locked: false,
        also_install: vec![],
        install_args: vec![],
    };
    assert_eq!(parse_line(Dialect::Pacman, "-Syu"), upgrade);
    assert_eq!(parse_line(Dialect::Pacman, "-Suy"), upgrade);
    assert_eq!(parse_line(Dialect::Pacman, "-Sy -u"), upgrade);
    assert_eq!(parse_line(Dialect::Pacman, "-Syyu"), upgrade);
    assert_eq!(
        parse_line(Dialect::Pacman, "--sync --refresh --sysupgrade"),
        upgrade
    );
}

#[test]
fn pacman_syu_with_package() {
    let Operation::Upgrade {
        also_install,
        dry_run,
        ..
    } = parse_line(Dialect::Pacman, "-Syu ripgrep")
    else {
        panic!("expected upgrade");
    };
    assert_eq!(also_install, ["ripgrep"]);
    assert!(!dry_run);
}

#[test]
fn pacman_query_named_and_outdated() {
    assert_eq!(
        parse_line(Dialect::Pacman, "-Q ripgrep bat"),
        Operation::List {
            query: Some(vec!["ripgrep".into(), "bat".into()]),
        }
    );
    assert_eq!(parse_line(Dialect::Pacman, "-Qu"), Operation::CheckUpdates);
    assert_eq!(
        parse_line(Dialect::Pacman, "-Qe"),
        Operation::List { query: None }
    );
    assert_eq!(parse_line(Dialect::Pacman, "-Sy"), Operation::CheckUpdates);
}

#[test]
fn pacman_print_is_dry_run() {
    let Operation::Upgrade { dry_run, .. } = parse_line(Dialect::Pacman, "-Syup") else {
        panic!("expected upgrade");
    };
    assert!(dry_run);
}

#[test]
fn apt_flags_before_command() {
    let Operation::Install {
        packages, dry_run, ..
    } = parse_line(Dialect::Apt, "-y install ripgrep bat")
    else {
        panic!("expected install");
    };
    assert_eq!(packages, ["ripgrep", "bat"]);
    assert!(!dry_run);
}

#[test]
fn apt_list_variants() {
    assert_eq!(
        parse_line(Dialect::Apt, "list --installed"),
        Operation::List { query: None }
    );
    assert_eq!(
        parse_line(Dialect::Apt, "list --upgradable"),
        Operation::CheckUpdates
    );
    assert_eq!(
        parse_line(Dialect::Apt, "list --upgradeable"),
        Operation::CheckUpdates
    );
    assert_eq!(
        parse_line(Dialect::Apt, "-s upgrade"),
        Operation::Upgrade {
            dry_run: true,
            locked: false,
            also_install: vec![],
            install_args: vec![],
        }
    );
}

#[test]
fn dnf_list_and_check_update() {
    assert_eq!(
        parse_line(Dialect::Dnf, "list installed"),
        Operation::List { query: None }
    );
    assert_eq!(
        parse_line(Dialect::Dnf, "list updates"),
        Operation::CheckUpdates
    );
    assert_eq!(
        parse_line(Dialect::Dnf, "check-update"),
        Operation::CheckUpdates
    );
    assert_eq!(
        parse_line(Dialect::Dnf, "update"),
        Operation::Upgrade {
            dry_run: false,
            locked: false,
            also_install: vec![],
            install_args: vec![],
        }
    );
    assert_eq!(
        parse_line(Dialect::Dnf, "-n upgrade"),
        Operation::Upgrade {
            dry_run: true,
            locked: false,
            also_install: vec![],
            install_args: vec![],
        }
    );
}

#[test]
fn frontend_flag_and_subcommand_strip() {
    let (dialect, rest) =
        preprocess(s("--frontend apt -- apt -y install ripgrep")).expect("preprocess");
    assert_eq!(dialect, Dialect::Apt);
    assert_eq!(rest, ["-y", "install", "ripgrep"]);
}

#[test]
fn pkgman_subcommand_is_native() {
    let (dialect, rest) = preprocess(s("pkgman list")).expect("preprocess");
    assert_eq!(dialect, Dialect::Native);
    assert_eq!(rest, ["list"]);
}

#[test]
fn unknown_frontend() {
    let error = preprocess(s("--frontend pkg -- list")).unwrap_err();
    assert!(matches!(error, Error::Usage(_)));
}

#[test]
fn install_requires_packages() {
    assert!(parse(Dialect::Native, &s("install")).is_err());
    assert!(parse(Dialect::Pacman, &s("-S")).is_err());
}

#[test]
fn value_flag_without_value_is_usage() {
    let error = parse(Dialect::Native, &s("install --features")).unwrap_err();
    assert!(matches!(error, Error::Usage(_)));
}

const DIALECTS: [Dialect; 4] = [
    Dialect::Native,
    Dialect::Pacman,
    Dialect::Apt,
    Dialect::Dnf,
];

#[test]
fn help_is_understood_anywhere() {
    for dialect in DIALECTS {
        assert_eq!(parse_line(dialect, "frobnicate --help"), Operation::Help);
        assert_eq!(parse_line(dialect, "-h install"), Operation::Help);
        assert_eq!(parse_line(dialect, ""), Operation::Help);
    }
    assert_eq!(parse_line(Dialect::Pacman, "-Sh foo"), Operation::Help);
    assert_eq!(parse_line(Dialect::Native, "help"), Operation::Help);
}

#[test]
fn global_flags_stand_anywhere() {
    let expected = Operation::Install {
        packages: vec!["foo".into()],
        cargo_args: vec!["--locked".into(), "--features".into(), "x".into()],
        dry_run: true,
    };
    for line in [
        "--dry-run --locked install --features x foo",
        "install --features x foo --dry-run --locked",
        "install --locked --features x --dry-run foo",
    ] {
        assert_eq!(parse_line(Dialect::Native, line), expected);
        assert_eq!(parse_line(Dialect::Apt, line), expected);
        assert_eq!(parse_line(Dialect::Dnf, line), expected);
    }
    assert_eq!(
        parse_line(Dialect::Pacman, "-R foo --dry-run"),
        Operation::Remove {
            packages: vec!["foo".into()],
            cargo_args: vec![],
            dry_run: true,
        }
    );
}

#[test]
fn yes_changes_nothing() {
    for dialect in [Dialect::Apt, Dialect::Dnf] {
        assert_eq!(
            parse_line(dialect, "install -y foo"),
            parse_line(dialect, "install foo")
        );
        assert_eq!(
            parse_line(dialect, "-y upgrade"),
            parse_line(dialect, "upgrade")
        );
    }
}

#[test]
fn pacman_options_may_be_split_and_shuffled() {
    let whole = parse_line(Dialect::Pacman, "-Ssp ripgrep");
    assert_eq!(whole, Operation::Search("ripgrep".into()));
    assert_eq!(parse_line(Dialect::Pacman, "-S -s -p ripgrep"), whole);
    assert_eq!(parse_line(Dialect::Pacman, "-psS ripgrep"), whole);
    assert_eq!(
        parse_line(Dialect::Pacman, "--print -S foo"),
        Operation::Install {
            packages: vec!["foo".into()],
            cargo_args: vec![],
            dry_run: true,
        }
    );
}

#[test]
fn pacman_usage_errors() {
    let message = |line: &str| parse(Dialect::Pacman, &s(line)).unwrap_err().message();
    assert_eq!(
        message("-SR foo"),
        "conflicting pacman operations (use only one of -S, -R, -Q)"
    );
    assert_eq!(
        message("-y"),
        "no pacman operation specified (expected -S, -R, or -Q)"
    );
    assert_eq!(message("-Sx"), "unsupported pacman option '-x'");
    assert_eq!(
        message("-S --root=/x"),
        "unsupported pacman option '--root'"
    );
    assert_eq!(message("-Ss"), "-Ss requires an argument");
    assert_eq!(message("-Qi"), "-Qi requires an argument");
}

#[test]
fn usage_errors_name_the_problem() {
    let message = |line: &str| parse(Dialect::Native, &s(line)).unwrap_err().message();
    assert_eq!(message("frobnicate now"), "unknown command 'frobnicate'");
    assert_eq!(message("install"), "no packages specified");
    assert_eq!(message("remove --force"), "no packages specified");
    assert_eq!(message("install --features"), "--features requires a value");
    assert_eq!(message("search -q"), "search requires an argument");
    assert_eq!(message("show"), "info requires an argument");
    let error = preprocess(s("--frontend")).unwrap_err();
    assert_eq!(error.message(), "--frontend requires a frontend name");
}

#[test]
fn splitting_keeps_every_argument() {
    let args = s("a --features x -v - --git=u b -- -c -- d");
    let (packages, flags) = split_packages_and_flags(&args).unwrap();
    assert_eq!(packages, ["a", "-", "b", "-c", "--", "d"]);
    assert_eq!(flags, ["--features", "x", "-v", "--git=u"]);
    assert_eq!(packages.len() + flags.len() + 1, args.len());
}

#[test]
fn frontend_may_be_spelled_with_an_equals_sign() {
    let (dialect, rest) = preprocess(s("--frontend=dnf -- check-update")).unwrap();
    assert_eq!(dialect, Dialect::Dnf);
    assert_eq!(rest, ["check-update"]);
    assert_eq!(
        preprocess(s("--frontend dnf check-update")).unwrap(),
        (Dialect::Dnf, s("check-update"))
    );
    assert_eq!(
        preprocess(s("pkgman --frontend pm -- pm list")).unwrap(),
        (Dialect::Native, s("list"))
    );
}

#[test]
fn upgrade_takes_extra_packages() {
    assert_eq!(
        parse_line(Dialect::Apt, "full-upgrade foo --force bar"),
        Operation::Upgrade {
            dry_run: false,
            locked: false,
            also_install: vec!["foo".into(), "bar".into()],
            install_args: vec!["--force".into()],
        }
    );
}

#[test]
fn lists_may_name_packages() {
    let named = Operation::List {
        query: Some(vec!["foo".into(), "bar".into()]),
    };
    assert_eq!(parse_line(Dialect::Apt, "list foo bar"), named);
    assert_eq!(parse_line(Dialect::Dnf, "list foo bar"), named);
    assert_eq!(
        parse_line(Dialect::Native, "list foo"),
        Operation::List { query: None }
    );
    assert_eq!(
        parse_line(Dialect::Dnf, "list foo --upgradable"),
        Operation::CheckUpdates
    );
}

#[test]
fn aliases_mean_their_commands() {
    for (alias, command) in [
        ("add", "install"),
        ("uninstall", "remove"),
        ("check", "update"),
        ("outdated", "update"),
        ("show", "info"),
    ] {
        for rest in ["", "foo", "--features x foo", "--features"] {
            let of = |word: &str| {
                parse(Dialect::Native, &s(&format!("{word} {rest}"))).map_err(|e| e.message())
            };
            assert_eq!(of(alias), of(command));
        }
    }
}

#[test]
fn apt_flags_change_nothing_but_dry_run() {
    let planned = Operation::Install {
        packages: vec!["foo".into()],
        cargo_args: vec!["--force".into()],
        dry_run: true,
    };
    for flag in ["-s", "--simulate", "--just-print", "--recon"] {
        let line = format!("--yes install {flag} foo --assume-yes --force");
        assert_eq!(parse_line(Dialect::Apt, &line), planned);
    }
    for flag in ["-n", "--assumeno"] {
        let line = format!("--assumeyes install foo {flag} --force");
        assert_eq!(parse_line(Dialect::Dnf, &line), planned);
    }
    let of = |line: &str| parse(Dialect::Apt, &s(line)).map_err(|e| e.message());
    assert_eq!(of("-s --yes install"), of("install"));
}

#[test]
fn settings_change_nothing_else() {
    for dialect in DIALECTS {
        let line = if dialect == Dialect::Pacman {
            "-S foo"
        } else {
            "install foo"
        };
        let Operation::Install {
            packages,
            cargo_args,
            dry_run,
        } = parse_line(dialect, line)
        else {
            panic!("expected install");
        };
        assert!(cargo_args.is_empty());
        assert!(!dry_run);
        assert_eq!(
            parse_line(dialect, &format!("--locked {line} --dry-run --locked")),
            Operation::Install {
                packages,
                cargo_args: vec!["--locked".into()],
                dry_run: true,
            }
        );
    }
    let of = |line: &str| parse(Dialect::Native, &s(line)).map_err(|e| e.message());
    assert_eq!(of("install --locked --dry-run"), of("install"));
}
