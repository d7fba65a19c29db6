use cargo_pkgman::config::Found;
use cargo_pkgman::listing::{info_args, installed_registry_name, list_packages, search_args};
use cargo_pkgman::packages::{classify_source, parse_key};
use cargo_pkgman::{
    installed_packages_in, overlay_crates2, parse_crates_toml, Error, InstallOptions,
    InstalledPackage, PackageSource, Registries,
};

const CRATES_TOML: &str = r#"
[v1]
"ripgrep 14.1.0 (registry+https://github.com/rust-lang/crates.io-index)" = ["rg"]
"foo 0.1.0 (git+https://github.com/x/foo#abc)" = ["foo"]
"bar 0.2.0 (path+file:///tmp/bar)" = ["bar"]
"#;

const CRATES2: &str = r#"
{
  "installs": {
    "ripgrep 14.1.0 (registry+https://github.com/rust-lang/crates.io-index)": {
      "version_req": null,
      "bins": ["rg"],
      "features": ["pcre2"],
      "all_features": false,
      "no_default_features": true,
      "profile": "release",
      "target": null,
      "rustc": "1.86.0"
    }
  }
}
"#;

fn installed() -> Vec<InstalledPackage> {
    installed_packages_in(
        Found::Text(CRATES_TOML.to_string()),
        Found::Text(CRATES2.to_string()),
    )
    .unwrap()
}

#[test]
fn parse_registry_git_and_path() {
    let packages = parse_crates_toml(CRATES_TOML).unwrap();
    assert_eq!(packages.len(), 3);
    assert!(packages
        .iter()
        .any(|package| { package.name == "ripgrep" && package.source.is_registry() }));
    assert!(packages.iter().any(|package| {
        package.name == "foo" && matches!(package.source, PackageSource::Git { .. })
    }));
    assert!(packages.iter().any(|package| {
        package.name == "bar" && matches!(package.source, PackageSource::Path { .. })
    }));
}

#[test]
fn crates2_overlay_preserves_features() {
    let mut packages = parse_crates_toml(CRATES_TOML).unwrap();
    overlay_crates2(&mut packages, CRATES2).unwrap();
    let ripgrep = packages
        .iter()
        .find(|package| package.name == "ripgrep")
        .unwrap();
    assert!(ripgrep.install.no_default_features);
    assert_eq!(ripgrep.install.features, ["pcre2"]);
    assert_eq!(ripgrep.install.bins, ["rg"]);
}

#[test]
fn overlay_keeps_other_packages_and_appends_new_ones() {
    let mut packages = parse_crates_toml(CRATES_TOML).unwrap();
    let before: Vec<String> = packages.iter().map(|p| p.name.clone()).collect();
    overlay_crates2(
        &mut packages,
        r#"{"installs": {"new 1.0.0 (registry+https://example.com/)": {"target": "", "all_features": true}, "no key": {}}}"#,
    )
    .unwrap();
    assert_eq!(packages.len(), 4);
    for (package, name) in packages.iter().zip(&before) {
        assert_eq!(&package.name, name);
        assert_eq!(package.install, InstallOptions::default());
    }
    assert_eq!(packages[3].name, "new");
    assert_eq!(packages[3].install.target, None);
    assert_eq!(packages[3].install.cargo_args(), ["--all-features"]);
}

#[test]
fn list_tag_for_non_registry() {
    assert_eq!(
        PackageSource::Git {
            raw: "git+https://example.com".into()
        }
        .list_tag(),
        Some("git")
    );
    assert_eq!(
        PackageSource::Registry {
            raw: "registry+https://example.com".into()
        }
        .list_tag(),
        None
    );
}

#[test]
fn installed_packages_in_temp_root() {
    let packages = installed();
    assert_eq!(packages.len(), 3);
    let ripgrep = packages
        .iter()
        .find(|package| package.name == "ripgrep")
        .unwrap();
    assert_eq!(ripgrep.install.features, ["pcre2"]);
}

#[test]
fn installed_packages_are_sorted_by_name() {
    let names: Vec<String> = installed().into_iter().map(|p| p.name).collect();
    assert_eq!(names, ["bar", "foo", "ripgrep"]);
}

#[test]
fn packages_of_one_name_stay_in_order() {
    let packages = installed_packages_in(
        Found::Missing,
        Found::Text(
            r#"{"installs": {"b 2.0.0 (path+file:///b)": {}, "b 1.0.0 (path+file:///b)": {}, "a 9.0.0 (path+file:///a)": {}}}"#
                .to_string(),
        ),
    )
    .unwrap();
    let shown: Vec<String> = packages
        .iter()
        .map(|p| format!("{} {}", p.name, p.version.text()))
        .collect();
    assert_eq!(shown, ["a 9.0.0", "b 1.0.0", "b 2.0.0"]);
}

#[test]
fn no_record_files_mean_no_packages() {
    assert!(installed_packages_in(Found::Missing, Found::Missing)
        .unwrap()
        .is_empty());
    assert!(parse_crates_toml("").unwrap().is_empty());
}

#[test]
fn malformed_records_are_errors() {
    let error = parse_crates_toml("[v1").unwrap_err();
    assert!(matches!(error, Error::Config(_)));
    assert!(error.message().starts_with("could not parse .crates.toml: "));
    let mut packages = Vec::new();
    let error = overlay_crates2(&mut packages, "{").unwrap_err();
    assert!(error
        .message()
        .starts_with("could not parse .crates2.json: "));
    let error = installed_packages_in(
        Found::Missing,
        Found::Unreadable(Error::Config("gone".to_string())),
    )
    .unwrap_err();
    assert_eq!(error.message(), "gone");
}

#[test]
fn keys_are_taken_apart() {
    let package = parse_key("my tool 1.2.3-rc.1+b5 (sparse+https://x.example/)").unwrap();
    assert_eq!(package.name, "my tool");
    assert_eq!(package.version.text(), "1.2.3-rc.1+b5");
    assert_eq!(package.source.raw(), "sparse+https://x.example/");
    assert!(package.source.is_registry());
    assert!(parse_key("just 1.58 (registry+https://x/)").is_none());
    assert!(parse_key("just 1.58.0 (registry+https://x/").is_none());
    assert!(parse_key("just1.58.0").is_none());
    assert_eq!(
        classify_source("local"),
        PackageSource::Other {
            raw: "local".to_string()
        }
    );
}

#[test]
fn flags_reproduce_an_install() {
    let options = InstallOptions {
        features: vec!["a".into(), "b".into()],
        all_features: true,
        no_default_features: true,
        bins: vec!["x".into(), "y".into()],
        profile: Some("dev".into()),
        target: Some("wasm32-wasip1".into()),
        version_req: Some("^1".into()),
    };
    assert_eq!(
        options.cargo_args(),
        [
            "--no-default-features",
            "--all-features",
            "--features",
            "a,b",
            "--bin",
            "x",
            "--bin",
            "y",
            "--debug",
            "--target",
            "wasm32-wasip1",
        ]
    );
    let options = InstallOptions {
        profile: Some("bench".into()),
        ..InstallOptions::default()
    };
    assert_eq!(options.cargo_args(), ["--profile", "bench"]);
    let options = InstallOptions {
        profile: Some("release".into()),
        ..InstallOptions::default()
    };
    assert!(options.cargo_args().is_empty());
}

#[test]
fn listing_aligns_names_and_tags_sources() {
    let lines = list_packages(&installed(), None).unwrap();
    assert_eq!(
        lines,
        [
            "bar     0.2.0 (path)",
            "foo     0.1.0 (git)",
            "ripgrep 14.1.0",
        ]
    );
    let names = vec!["foo".to_string(), "bar".to_string()];
    let lines = list_packages(&installed(), Some(&names)).unwrap();
    assert_eq!(lines, ["foo 0.1.0 (git)", "bar 0.2.0 (path)"]);
}

#[test]
fn listing_a_missing_package_is_an_error() {
    let names = vec!["foo".to_string(), "nope".to_string(), "none".to_string()];
    let error = list_packages(&installed(), Some(&names)).unwrap_err();
    assert_eq!(error.message(), "package 'nope' is not installed");
    assert!(matches!(error, Error::NotInstalled(_)));
}

#[test]
fn info_and_search_name_the_registry() {
    let mut registries = Registries::new();
    registries
        .apply_toml(
            "[registry]\ndefault = \"mirror\"\n[source.crates-io]\nreplace-with = \"mirror\"\n[source.mirror]\nregistry = \"sparse+https://m.example/\"\n",
            None,
        )
        .unwrap();
    let packages = installed();
    assert_eq!(
        installed_registry_name(&packages, Some(&registries), "ripgrep").as_deref(),
        Some("mirror")
    );
    assert_eq!(installed_registry_name(&packages, None, "ripgrep"), None);
    assert_eq!(
        info_args("ripgrep", &packages, Some(&registries)),
        ["info", "ripgrep", "--registry", "mirror"]
    );
    assert_eq!(
        info_args("foo", &packages, Some(&registries)),
        ["info", "foo"]
    );
    assert_eq!(
        search_args("grep", Some(&registries)),
        ["search", "grep", "--registry", "mirror"]
    );
    assert_eq!(search_args("grep", None), ["search", "grep"]);
    let mut plain = Registries::new();
    plain
        .apply_toml("[registry]\ndefault = \"crates-io\"\n", None)
        .unwrap();
    assert_eq!(search_args("grep", Some(&plain)), ["search", "grep"]);
}
