use cargo_pkgman::config::{config_plan, Found};
use cargo_pkgman::index::index_url;
use cargo_pkgman::registry::{env_key_to_name, ConfigPlace, RootStep};
use cargo_pkgman::{index_path, trim_protocol, Error, Registries, Registry, CRATES_IO_NAME};

fn registries_from_toml(text: &str) -> Registries {
    let mut registries = Registries::new();
    registries.apply_toml(text, None).expect("toml");
    registries
}

fn pair(key: &str, value: &str) -> (String, String) {
    (key.to_string(), value.to_string())
}

#[test]
fn index_path_layout() {
    assert_eq!(index_path("a"), "1/a");
    assert_eq!(index_path("ab"), "2/ab");
    assert_eq!(index_path("bat"), "3/b/bat");
    assert_eq!(index_path("serde"), "se/rd/serde");
    assert_eq!(index_path("RipGrep"), "ri/pg/ripgrep");
}

#[test]
fn index_path_of_names_that_are_not_ascii() {
    assert_eq!(index_path("ÄRGER"), "ärger");
    assert_eq!(index_path("CARGO"), index_path("cargo"));
}

#[test]
fn index_url_joins_index_and_path() {
    let registry = Registry {
        name: Some("mirror".to_string()),
        index: "https://mirror.example/index/".to_string(),
    };
    assert_eq!(
        index_url(&registry, "Serde"),
        "https://mirror.example/index/se/rd/serde"
    );
}

#[test]
fn trim_protocol_prefixes() {
    assert_eq!(
        trim_protocol("registry+https://github.com/rust-lang/crates.io-index"),
        "https://github.com/rust-lang/crates.io-index"
    );
    assert_eq!(
        trim_protocol("sparse+https://index.crates.io/"),
        "https://index.crates.io/"
    );
    assert_eq!(
        trim_protocol("https://example.com/"),
        "https://example.com/"
    );
}

#[test]
fn crates_io_source_uses_sparse_index() {
    let registries = registries_from_toml("");
    let registry = registries
        .resolve("registry+https://github.com/rust-lang/crates.io-index")
        .unwrap();
    assert_eq!(registry, Registry::crates_io());
}

#[test]
fn crates_io_has_no_name_and_ends_with_slash() {
    let registry = Registries::new()
        .resolve("sparse+https://index.crates.io/")
        .unwrap();
    assert_eq!(registry.name, None);
    assert_eq!(registry.index, "https://index.crates.io/");
    assert_eq!(registry.token_name(), CRATES_IO_NAME);
}

#[test]
fn source_replacement_to_sparse_mirror() {
    let registries = registries_from_toml(
        r#"
            [source.crates-io]
            replace-with = "mirror"
            [source.mirror]
            registry = "sparse+https://mirror.example/index/"
            "#,
    );
    let registry = registries
        .resolve("registry+https://github.com/rust-lang/crates.io-index")
        .unwrap();
    assert_eq!(registry.index, "https://mirror.example/index/");
    assert_eq!(registry.name.as_deref(), Some("mirror"));
}

#[test]
fn index_gets_its_slash() {
    let registries = registries_from_toml(
        "[registries.foo]\nindex = \"sparse+https://foo.example/index\"\n",
    );
    let registry = registries
        .resolve("sparse+https://foo.example/index")
        .unwrap();
    assert_eq!(registry.index, "https://foo.example/index/");
    assert_eq!(registry.name.as_deref(), Some("foo"));
}

#[test]
fn git_index_is_rejected() {
    let registries = registries_from_toml(
        r#"
            [registries.private]
            index = "https://github.com/org/index"
            "#,
    );
    let error = registries
        .resolve("registry+https://github.com/org/index")
        .unwrap_err();
    assert!(error.message().contains("git index"));
    assert_eq!(
        error.message(),
        "registry 'https://github.com/org/index' uses a git index, which cargo-pkgman cannot query"
    );
}

#[test]
fn git_protocol_of_crates_io_is_rejected() {
    let registries =
        registries_from_toml("[registries.crates-io]\nprotocol = \"git\"\n");
    let error = registries
        .resolve("registry+https://github.com/rust-lang/crates.io-index")
        .unwrap_err();
    assert_eq!(
        error.message(),
        "registry 'crates-io' uses a git index, which cargo-pkgman cannot query"
    );
    assert!(matches!(error, Error::Registry(_)));
}

#[test]
fn circular_replacement_is_an_error() {
    let registries = registries_from_toml(
        r#"
            [source.a]
            replace-with = "b"
            [source.b]
            replace-with = "a"
            "#,
    );
    let error = registries.resolve("a").unwrap_err();
    assert!(error.message().contains("circular"));
    assert!(matches!(error, Error::Config(_)));
    assert_eq!(error.message(), "source replacement for 'a' is circular");
}

#[test]
fn malformed_config_is_an_error() {
    let mut registries = Registries::new();
    let error = registries.apply_toml("[registries", None).unwrap_err();
    assert!(matches!(error, Error::Config(_)));
    assert!(error.message().starts_with("could not parse Cargo config: "));
}

#[test]
fn environment_overrides_files() {
    let files = vec![(
        ConfigPlace::Home,
        Found::Text(
            "[registry]\ndefault = \"home\"\n[registries.foo-bar]\nindex = \"sparse+https://home.example/\"\n"
                .to_string(),
        ),
    )];
    let variables = vec![
        pair("CARGO_REGISTRY_DEFAULT", "env"),
        pair(
            "CARGO_REGISTRIES_FOO_BAR_INDEX",
            "sparse+https://env.example/",
        ),
        pair("CARGO_REGISTRIES_FOO_BAR_TOKEN", "Bearer env"),
        pair("CARGO_SOURCE_CRATES_IO_REPLACE_WITH", "foo-bar"),
        pair("CARGO_INSTALL_ROOT", "elsewhere"),
        pair("PATH", "/bin"),
    ];
    let registries = Registries::load(files, &variables).unwrap();
    assert_eq!(registries.default_registry(), Some("env"));
    let registry = registries
        .resolve("registry+https://github.com/rust-lang/crates.io-index")
        .unwrap();
    assert_eq!(registry.name.as_deref(), Some("foo-bar"));
    assert_eq!(registry.index, "https://env.example/");
    assert_eq!(
        registries.token_for(&registry).map(String::as_str),
        Some("Bearer env")
    );
    let steps = registries.install_root();
    assert_eq!(steps.len(), 2);
    assert!(matches!(steps[0], RootStep::Place(ConfigPlace::Home)));
    assert!(matches!(&steps[1], RootStep::Path(path) if path == "elsewhere"));
}

#[test]
fn environment_sets_protocol_token_and_source() {
    let variables = vec![
        pair("CARGO_REGISTRIES_CRATES_IO_PROTOCOL", "git"),
        pair("CARGO_REGISTRY_TOKEN", "secret"),
        pair("CARGO_SOURCE_MY_MIRROR_REGISTRY", "sparse+https://m.example/i"),
    ];
    let registries = Registries::load(Vec::new(), &variables).unwrap();
    assert!(registries.resolve("sparse+https://index.crates.io/").is_err());
    let registry = registries.resolve("sparse+https://m.example/i").unwrap();
    assert_eq!(registry.name.as_deref(), Some("my-mirror"));
    assert_eq!(registry.index, "https://m.example/i/");
    assert_eq!(env_key_to_name("MY_MIRROR"), "my-mirror");
}

#[test]
fn crates_io_is_asked_without_a_token() {
    let registries = registries_from_toml("[registry]\ntoken = \"secret\"\n");
    assert!(registries.token_for(&Registry::crates_io()).is_none());
}

#[test]
fn directory_walk_overrides_home() {
    let files = vec![
        (
            ConfigPlace::Home,
            Found::Text(
                r#"
            [registries.foo]
            index = "sparse+https://home.example/index/"
            "#
                .to_string(),
            ),
        ),
        (ConfigPlace::Ancestor(1), Found::Missing),
        (
            ConfigPlace::Ancestor(0),
            Found::Text(
                r#"
            [registries.foo]
            index = "sparse+https://project.example/index/"
            "#
                .to_string(),
            ),
        ),
        (ConfigPlace::Home, Found::Missing),
    ];
    let registries = Registries::load(files, &[]).unwrap();
    let registry = registries
        .resolve("sparse+https://project.example/index/")
        .unwrap();
    assert_eq!(registry.index, "https://project.example/index/");
    assert_eq!(
        registries
            .resolve("sparse+https://home.example/index/")
            .unwrap()
            .index,
        "https://project.example/index/"
    );
}

#[test]
fn plan_reads_home_then_ancestors_then_credentials() {
    let plan = config_plan(2);
    assert_eq!(plan.len(), 4);
    assert_eq!(plan[0].place, ConfigPlace::Home);
    assert_eq!(plan[0].names, ["config", "config.toml"]);
    assert_eq!(plan[1].place, ConfigPlace::Ancestor(1));
    assert_eq!(plan[2].place, ConfigPlace::Ancestor(0));
    assert_eq!(plan[2].names, ["config", "config.toml"]);
    assert_eq!(plan[3].place, ConfigPlace::Home);
    assert_eq!(plan[3].names, ["credentials.toml", "credentials"]);
}

#[test]
fn credentials_and_install_root() {
    let registries = Registries::load_from_home(
        Found::Text(
            r#"
            [install]
            root = "install-root"
            "#
            .to_string(),
        ),
        Found::Text("[registries.private]\ntoken = \"Bearer secret\"\n\n".to_string()),
    )
    .unwrap();
    let steps = registries.install_root();
    assert_eq!(steps.len(), 3);
    assert!(matches!(steps[0], RootStep::Place(ConfigPlace::Home)));
    assert!(matches!(steps[1], RootStep::Place(ConfigPlace::Home)));
    assert!(matches!(&steps[2], RootStep::Path(path) if path == "install-root"));
    let private = Registry {
        name: Some("private".to_string()),
        index: "https://private.example/".to_string(),
    };
    assert_eq!(
        registries.token_for(&private).map(String::as_str),
        Some("Bearer secret")
    );
}

#[test]
fn unreadable_config_is_passed_on() {
    let error = Registries::load_from_home(
        Found::Unreadable(Error::Config("nope".to_string())),
        Found::Missing,
    )
    .unwrap_err();
    assert_eq!(error.message(), "nope");
}

#[test]
fn replacements_are_followed_to_the_end() {
    let registries = registries_from_toml(
        r#"
            [source.crates-io]
            replace-with = "near"
            [source.near]
            replace-with = "far"
            registry = "sparse+https://near.example/"
            [source.far]
            registry = "sparse+https://far.example/"
            "#,
    );
    let registry = registries
        .resolve("sparse+https://index.crates.io/")
        .unwrap();
    assert_eq!(registry.name.as_deref(), Some("far"));
    assert_eq!(registry.index, "https://far.example/");
}

#[test]
fn install_root_is_home_by_default() {
    let steps = Registries::new().install_root();
    assert_eq!(steps.len(), 1);
    assert!(matches!(steps[0], RootStep::Place(ConfigPlace::Home)));
}

#[test]
fn replaced_crates_io_index_is_still_crates_io() {
    let registries = registries_from_toml(
        "[registries.alias]\nindex = \"sparse+https://index.crates.io/\"\n",
    );
    assert_eq!(registries.resolve("alias").unwrap(), Registry::crates_io());
}

#[test]
fn unconfigured_sparse_source_is_asked_directly() {
    let registries = registries_from_toml("");
    let registry = registries
        .resolve("sparse+https://idx.example/index/")
        .unwrap();
    assert_eq!(registry.index, "https://idx.example/index/");
    assert_eq!(registry.name.as_deref(), Some("https://idx.example/index/"));
    let registry = registries.resolve("sparse+https://idx.example").unwrap();
    assert_eq!(registry.index, "https://idx.example/");
    assert!(registries
        .resolve("registry+https://idx.example/index/")
        .is_err());
}

#[test]
fn same_file_twice_changes_nothing() {
    let text = r#"
            [registries.foo]
            index = "sparse+https://foo.example/"
            token = "t"
            [source.bar]
            registry = "sparse+https://foo.example/"
            [registry]
            default = "foo"
            "#;
    let mut registries = registries_from_toml(text);
    for _ in 0..2 {
        let registry = registries.resolve("sparse+https://foo.example/").unwrap();
        assert_eq!(registry.name.as_deref(), Some("bar"));
        assert_eq!(registries.default_registry(), Some("foo"));
        registries.apply_toml(text, None).unwrap();
    }
    registries
        .apply_toml("[registries.other]\nindex = \"sparse+https://o.example/\"\n", None)
        .unwrap();
    let registry = registries.resolve("sparse+https://foo.example/").unwrap();
    assert_eq!(registry.name.as_deref(), Some("bar"));
    assert_eq!(registries.default_registry(), Some("foo"));
}

#[test]
fn inner_protocol_of_a_source_counts() {
    let registries = registries_from_toml("");
    for source in [
        "registry+sparse+https://x.example/",
        "sparse+sparse+https://x.example/",
    ] {
        let registry = registries.resolve(source).unwrap();
        assert_eq!(registry.index, "https://x.example/");
    }
    assert!(registries
        .resolve("sparse+registry+https://x.example/")
        .is_err());
    let registries = registries_from_toml(
        r#"
            [source.a]
            registry = "sparse+https://a.example/"
            replace-with = "https://a.example/"
            "#,
    );
    assert!(registries.resolve("sparse+https://a.example/").is_err());
}
