//! Which registry index answers for a package: alternate registries, source
//! replacement, tokens and the install root, as Cargo's configuration says.
//!
//! Configuration is taken the way Cargo does: `$CARGO_HOME/config.toml`, then
//! `.cargo/config.toml` from the root of the file system down to the current
//! directory, then `credentials.toml`, then `CARGO_*` environment variables.

use vstd::prelude::*;

use crate::error::{result_view, Error, ErrorView};
use crate::node::{entries_of, member, parse_toml, text_of, toml_document, Node};
use crate::text::{
    chars_of, concat2, concat3, ends_with, lower_ascii, opt_str, opt_text, same, starts_with,
    strip_prefix, strip_suffix, to_lower_ascii, without_prefix, without_suffix,
};
use crate::text_map::TextMap;

verus! {

/// The git index of crates.io, which Cargo records as the source of a package.
pub const CRATES_IO_GIT: &'static str = "https://github.com/rust-lang/crates.io-index";

/// The sparse index of crates.io.
pub const CRATES_IO_SPARSE: &'static str = "https://index.crates.io/";

/// The name Cargo uses for crates.io in config and `--registry`.
pub const CRATES_IO_NAME: &'static str = "crates-io";

/// How many names a chain of source replacements may hold.
pub const MAX_REPLACEMENTS: u32 = 16;

/// A registry we know how to query.
///
/// `name` is what `cargo install --registry` expects, and is `None` for
/// crates.io so that we leave Cargo on its default.
#[derive(Debug, Clone, PartialEq, Eq)]
pub struct Registry {
    /// Registry name for `--registry`, or `None` for crates.io.
    pub name: Option<String>,
    /// Sparse index base URL, including a trailing slash.
    pub index: String,
}

/// The value of a [`Registry`].
pub struct RegistryView {
    /// See [`Registry::name`].
    pub name: Option<Seq<char>>,
    /// See [`Registry::index`].
    pub index: Seq<char>,
}

impl View for Registry {
    type V = RegistryView;

    open spec fn view(&self) -> RegistryView {
        RegistryView { name: opt_text(self.name), index: self.index@ }
    }
}

/// crates.io.
pub open spec fn crates_io_registry() -> RegistryView {
    RegistryView { name: None, index: CRATES_IO_SPARSE@ }
}

/// The name under which a registry's token is kept.
pub open spec fn token_name_of(registry: RegistryView) -> Seq<char> {
    match registry.name {
        Some(name) => name,
        None => CRATES_IO_NAME@,
    }
}

impl Registry {
    /// crates.io.
    pub fn crates_io() -> (r: Self)
        ensures
            r@ == crates_io_registry(),
    {
        Registry { name: None, index: CRATES_IO_SPARSE.to_string() }
    }

    /// Token lookup key: `crates-io` when [`Self::name`] is `None`.
    pub fn token_name(&self) -> (r: &str)
        ensures
            r@ == token_name_of(self@),
    {
        match &self.name {
            Some(name) => name.as_str(),
            None => CRATES_IO_NAME,
        }
    }
}

/// A directory that may hold Cargo configuration.
#[derive(Debug, Clone, Copy, PartialEq, Eq, Structural)]
pub enum ConfigPlace {
    /// Cargo's home directory.
    Home,
    /// The `.cargo` directory in the current directory (0), in its parent (1),
    /// and so on.
    Ancestor(usize),
}

/// An install root from the configuration.
#[derive(Debug)]
pub struct InstallRoot {
    /// The directory of the file that set it; `None` for the environment.
    pub base: Option<ConfigPlace>,
    /// The path as it was written.
    pub path: String,
}

/// A step on the way to the install root. A step that is an absolute path
/// starts anew, as when paths are joined.
#[derive(Debug)]
pub enum RootStep {
    /// A directory.
    Place(ConfigPlace),
    /// A path as it was written.
    Path(String),
}

/// The value of a [`RootStep`].
pub enum RootStepView {
    /// See [`RootStep::Place`].
    Place(ConfigPlace),
    /// See [`RootStep::Path`].
    Path(Seq<char>),
}

impl View for RootStep {
    type V = RootStepView;

    open spec fn view(&self) -> RootStepView {
        match *self {
            RootStep::Place(place) => RootStepView::Place(place),
            RootStep::Path(path) => RootStepView::Path(path@),
        }
    }
}

/// The parts of Cargo's configuration that decide which index answers for a
/// given package: alternate registries, source replacement, install root, and
/// registry tokens.
#[derive(Debug)]
pub struct Registries {
    /// Registry name -> index URL, still carrying any `sparse+` prefix.
    indices: TextMap,
    /// Source name -> `replace-with` target.
    replacements: TextMap,
    /// Index URL without prefix -> source name.
    sources: TextMap,
    /// Registry name -> Authorization header value.
    tokens: TextMap,
    /// `[registry] default`.
    default_registry: Option<String>,
    /// `registries.crates-io.protocol`, `sparse` or `git`.
    crates_io_protocol: Option<String>,
    /// `[install] root` / `CARGO_INSTALL_ROOT`.
    install_root: Option<InstallRoot>,
}

/// The value of [`Registries`].
#[verifier::ext_equal]
pub struct RegistriesView {
    /// Registry name to index URL, with any `sparse+` prefix.
    pub indices: Map<Seq<char>, Seq<char>>,
    /// Source name to the name that replaces it.
    pub replacements: Map<Seq<char>, Seq<char>>,
    /// Index URL without prefix to source name.
    pub sources: Map<Seq<char>, Seq<char>>,
    /// Registry name to token.
    pub tokens: Map<Seq<char>, Seq<char>>,
    /// The default registry.
    pub default_registry: Option<Seq<char>>,
    /// The protocol of crates.io.
    pub crates_io_protocol: Option<Seq<char>>,
    /// The install root: the directory it is relative to, and the path.
    pub install_root: Option<(Option<ConfigPlace>, Seq<char>)>,
}

impl View for Registries {
    type V = RegistriesView;

    closed spec fn view(&self) -> RegistriesView {
        RegistriesView {
            indices: self.indices@,
            replacements: self.replacements@,
            sources: self.sources@,
            tokens: self.tokens@,
            default_registry: opt_text(self.default_registry),
            crates_io_protocol: opt_text(self.crates_io_protocol),
            install_root: match self.install_root {
                Some(root) => Some((root.base, root.path@)),
                None => None,
            },
        }
    }
}

/// A URL without a leading `registry+` or `sparse+`.
pub open spec fn trimmed(url: Seq<char>) -> Seq<char> {
    match without_prefix(url, "registry+"@) {
        Some(rest) => rest,
        None => match without_prefix(url, "sparse+"@) {
            Some(rest) => rest,
            None => url,
        },
    }
}

/// Strip a leading `registry+` or `sparse+` protocol prefix.
pub fn trim_protocol(url: &str) -> (r: &str)
    ensures
        r@ == trimmed(url@),
{
    match strip_prefix(url, "registry+") {
        Some(rest) => rest,
        None => match strip_prefix(url, "sparse+") {
            Some(rest) => rest,
            None => url,
        },
    }
}

/// What nothing but crates.io is known to.
pub open spec fn unconfigured() -> RegistriesView {
    RegistriesView {
        indices: Map::empty(),
        replacements: Map::empty(),
        sources: Map::empty().insert(CRATES_IO_GIT@, CRATES_IO_NAME@).insert(
            trimmed(CRATES_IO_SPARSE@),
            CRATES_IO_NAME@,
        ),
        tokens: Map::empty(),
        default_registry: None,
        crates_io_protocol: None,
        install_root: None,
    }
}

/// The name that `steps` replacements lead to from `name`.
pub open spec fn replaced_times(
    replacements: Map<Seq<char>, Seq<char>>,
    name: Seq<char>,
    steps: nat,
) -> Seq<char>
    decreases steps,
{
    if steps == 0 {
        name
    } else {
        replaced_times(replacements, replacements[name], (steps - 1) as nat)
    }
}

/// The name at the end of a chain of replacements that starts with `name`, if
/// the chain holds at most `names` names.
pub open spec fn chain_end(
    replacements: Map<Seq<char>, Seq<char>>,
    name: Seq<char>,
    names: nat,
) -> Option<Seq<char>>
    decreases names,
{
    if names == 0 {
        None
    } else if !replacements.contains_key(name) {
        Some(name)
    } else {
        chain_end(replacements, replacements[name], (names - 1) as nat)
    }
}

/// The source name that stands for `name` once replacements are followed.
pub open spec fn followed(replacements: Map<Seq<char>, Seq<char>>, name: Seq<char>) -> Result<
    Seq<char>,
    ErrorView,
> {
    match chain_end(replacements, name, MAX_REPLACEMENTS as nat) {
        Some(end) => Ok(end),
        None => Err(
            ErrorView::Config(
                "source replacement for '"@ + replaced_times(
                    replacements,
                    name,
                    MAX_REPLACEMENTS as nat,
                ) + "' is circular"@,
            ),
        ),
    }
}

/// `url` with a slash at its end.
pub open spec fn with_slash(url: Seq<char>) -> Seq<char> {
    if "/"@.is_suffix_of(url) {
        url
    } else {
        url + "/"@
    }
}

/// The registry with the given index: crates.io under either of its URLs, or
/// any other sparse index. A git index is refused.
pub open spec fn sparse_or_refused(
    name: Option<Seq<char>>,
    index: Seq<char>,
    source: Seq<char>,
) -> Result<RegistryView, ErrorView> {
    if trimmed(index) == CRATES_IO_GIT@ || trimmed(index) == trimmed(CRATES_IO_SPARSE@) {
        Ok(crates_io_registry())
    } else if !"sparse+"@.is_prefix_of(index) {
        Err(
            ErrorView::Registry(
                "registry '"@ + source
                    + "' uses a git index, which cargo-pkgman cannot query"@,
            ),
        )
    } else {
        Ok(RegistryView { name, index: with_slash(trimmed(index)) })
    }
}

/// Whether a URL starts with `registry+` or `sparse+`.
pub open spec fn has_protocol(url: Seq<char>) -> bool {
    "registry+"@.is_prefix_of(url) || "sparse+"@.is_prefix_of(url)
}

/// Whether a URL stands for itself: it has no name, nothing replaces it, and it
/// carries no protocol.
pub open spec fn is_plain(config: RegistriesView, url: Seq<char>) -> bool {
    !config.sources.contains_key(url) && !config.replacements.contains_key(url) && !has_protocol(
        url,
    )
}

/// The registry that answers for a recorded source.
pub open spec fn resolved(config: RegistriesView, source: Seq<char>) -> Result<
    RegistryView,
    ErrorView,
> {
    let url = trimmed(source);
    let named = if config.sources.contains_key(url) {
        config.sources[url]
    } else {
        url
    };
    match followed(config.replacements, named) {
        Err(error) => Err(error),
        Ok(name) => if name == CRATES_IO_NAME@ {
            if config.crates_io_protocol == Some("git"@) {
                Err(
                    ErrorView::Registry(
                        "registry 'crates-io' uses a git index, which cargo-pkgman cannot query"@,
                    ),
                )
            } else {
                Ok(crates_io_registry())
            }
        } else if config.indices.contains_key(name) {
            sparse_or_refused(Some(name), config.indices[name], url)
        } else if is_plain(config, url) {
            // A source without configuration; if it is sparse it can be asked.
            sparse_or_refused(Some(name), source, url)
        } else {
            // A name without an index of its own is taken for one.
            sparse_or_refused(Some(name), name, url)
        },
    }
}

/// The configuration with one more index under `name`.
pub open spec fn with_index(
    config: RegistriesView,
    name: Seq<char>,
    index: Seq<char>,
) -> RegistriesView {
    RegistriesView {
        indices: config.indices.insert(name, index),
        sources: config.sources.insert(trimmed(index), name),
        ..config
    }
}

/// The configuration with a token for `name`.
pub open spec fn with_token(
    config: RegistriesView,
    name: Seq<char>,
    token: Seq<char>,
) -> RegistriesView {
    RegistriesView { tokens: config.tokens.insert(name, token), ..config }
}

/// The configuration after an entry of the `registries` table.
pub open spec fn after_registry(config: RegistriesView, name: Seq<char>, node: Node) -> RegistriesView {
    let a = match text_of(member(node, "index"@)) {
        Some(index) => with_index(config, name, index),
        None => config,
    };
    let b = match text_of(member(node, "protocol"@)) {
        Some(protocol) if name == CRATES_IO_NAME@ => RegistriesView {
            crates_io_protocol: Some(protocol),
            ..a
        },
        _ => a,
    };
    match text_of(member(node, "token"@)) {
        Some(token) => with_token(b, name, token),
        None => b,
    }
}

/// The configuration after the entries of the `registries` table.
pub open spec fn after_registries(
    config: RegistriesView,
    entries: Seq<(String, Node)>,
) -> RegistriesView
    decreases entries.len(),
{
    if entries.len() == 0 {
        config
    } else {
        after_registries(after_registry(config, entries[0].0@, entries[0].1), entries.skip(1))
    }
}

/// The configuration after an entry of the `source` table.
pub open spec fn after_source(config: RegistriesView, name: Seq<char>, node: Node) -> RegistriesView {
    let a = match text_of(member(node, "replace-with"@)) {
        Some(target) => RegistriesView {
            replacements: config.replacements.insert(name, target),
            ..config
        },
        None => config,
    };
    match text_of(member(node, "registry"@)) {
        Some(index) => with_index(a, name, index),
        None => a,
    }
}

/// The configuration after the entries of the `source` table.
pub open spec fn after_sources(
    config: RegistriesView,
    entries: Seq<(String, Node)>,
) -> RegistriesView
    decreases entries.len(),
{
    if entries.len() == 0 {
        config
    } else {
        after_sources(after_source(config, entries[0].0@, entries[0].1), entries.skip(1))
    }
}

/// The member of a node that may be missing.
pub open spec fn submember(node: Option<Node>, key: Seq<char>) -> Option<Node> {
    match node {
        Some(node) => member(node, key),
        None => None,
    }
}

/// The configuration after a whole document that stands in `place`.
pub open spec fn after_document(
    config: RegistriesView,
    document: Node,
    place: Option<ConfigPlace>,
) -> RegistriesView {
    let a = after_registries(config, entries_of(member(document, "registries"@)));
    let b = after_sources(a, entries_of(member(document, "source"@)));
    let registry = member(document, "registry"@);
    let c = match text_of(submember(registry, "default"@)) {
        Some(default) => RegistriesView { default_registry: Some(default), ..b },
        None => b,
    };
    let d = match text_of(submember(registry, "token"@)) {
        Some(token) => with_token(c, CRATES_IO_NAME@, token),
        None => c,
    };
    match text_of(submember(member(document, "install"@), "root"@)) {
        Some(root) => RegistriesView { install_root: Some((place, root)), ..d },
        None => d,
    }
}

/// The configuration after a TOML text that stands in `place`, or the error
/// that the text leads to.
pub open spec fn after_toml(
    config: RegistriesView,
    text: Seq<char>,
    place: Option<ConfigPlace>,
) -> Result<RegistriesView, ErrorView> {
    match toml_document(text) {
        Ok(document) => Ok(after_document(config, document, place)),
        Err(message) => Err(ErrorView::Config("could not parse Cargo config: "@ + message)),
    }
}

/// The registry or source name that a part of an environment variable's name
/// stands for.
pub open spec fn env_name(key: Seq<char>) -> Seq<char> {
    key.map_values(
        |c: char|
            if c == '_' {
                '-'
            } else {
                lower_ascii(c)
            },
    )
}

/// The configuration after an environment variable.
pub open spec fn after_variable(
    config: RegistriesView,
    key: Seq<char>,
    value: Seq<char>,
) -> RegistriesView {
    if key == "CARGO_REGISTRIES_CRATES_IO_PROTOCOL"@ {
        RegistriesView { crates_io_protocol: Some(value), ..config }
    } else if key == "CARGO_REGISTRY_DEFAULT"@ {
        RegistriesView { default_registry: Some(value), ..config }
    } else if key == "CARGO_REGISTRY_TOKEN"@ {
        with_token(config, CRATES_IO_NAME@, value)
    } else if key == "CARGO_INSTALL_ROOT"@ {
        RegistriesView { install_root: Some((None, value)), ..config }
    } else if let Some(rest) = without_prefix(key, "CARGO_REGISTRIES_"@) {
        if let Some(name) = without_suffix(rest, "_INDEX"@) {
            with_index(config, env_name(name), value)
        } else if let Some(name) = without_suffix(rest, "_TOKEN"@) {
            with_token(config, env_name(name), value)
        } else {
            config
        }
    } else if let Some(rest) = without_prefix(key, "CARGO_SOURCE_"@) {
        if let Some(name) = without_suffix(rest, "_REPLACE_WITH"@) {
            RegistriesView {
                replacements: config.replacements.insert(env_name(name), value),
                ..config
            }
        } else if let Some(name) = without_suffix(rest, "_REGISTRY"@) {
            with_index(config, env_name(name), value)
        } else {
            config
        }
    } else {
        config
    }
}

/// The configuration after environment variables, in order.
pub open spec fn after_environment(
    config: RegistriesView,
    variables: Seq<(String, String)>,
) -> RegistriesView
    decreases variables.len(),
{
    if variables.len() == 0 {
        config
    } else {
        after_environment(
            after_variable(config, variables[0].0@, variables[0].1@),
            variables.skip(1),
        )
    }
}

/// The steps that lead to the install root from Cargo's home directory.
pub open spec fn root_steps(config: RegistriesView) -> Seq<RootStepView> {
    let home = seq![RootStepView::Place(ConfigPlace::Home)];
    match config.install_root {
        None => home,
        Some((None, path)) => home.push(RootStepView::Path(path)),
        Some((Some(base), path)) => home.push(RootStepView::Place(base)).push(
            RootStepView::Path(path),
        ),
    }
}

/// The token that is sent to a registry; crates.io gets none.
pub open spec fn token_of(config: RegistriesView, registry: RegistryView) -> Option<Seq<char>> {
    match registry.name {
        Some(name) if config.tokens.contains_key(name) => Some(config.tokens[name]),
        _ => None,
    }
}

impl Registries {
    /// What is known without any configuration: crates.io under both of its
    /// URLs.
    pub fn new() -> (r: Self)
        ensures
            r@ == unconfigured(),
    {
        let mut sources = TextMap::new();
        sources.insert(CRATES_IO_GIT.to_string(), CRATES_IO_NAME.to_string());
        sources.insert(trim_protocol(CRATES_IO_SPARSE).to_string(), CRATES_IO_NAME.to_string());
        Registries {
            indices: TextMap::new(),
            replacements: TextMap::new(),
            sources,
            tokens: TextMap::new(),
            default_registry: None,
            crates_io_protocol: None,
            install_root: None,
        }
    }

    /// The `[registry] default` value, if configured.
    pub fn default_registry(&self) -> (r: Option<&str>)
        ensures
            opt_str(r) == self@.default_registry,
    {
        match &self.default_registry {
            Some(name) => Some(name.as_str()),
            None => None,
        }
    }

    /// Directory that holds `.crates.toml` / `.crates2.json` and is passed as
    /// `--root` to `cargo install`: the steps to join, in order.
    pub fn install_root(&self) -> (r: Vec<RootStep>)
        ensures
            r@.map_values(|step: RootStep| step@) == root_steps(self@),
    {
        let mut steps: Vec<RootStep> = Vec::new();
        steps.push(RootStep::Place(ConfigPlace::Home));
        if let Some(root) = &self.install_root {
            if let Some(base) = root.base {
                steps.push(RootStep::Place(base));
            }
            steps.push(RootStep::Path(root.path.clone()));
        }
        assert(steps@.map_values(|step: RootStep| step@) =~= root_steps(self@));
        steps
    }

    /// Authorization token for `registry`, if one is configured.
    ///
    /// crates.io's public sparse index is queried without a token.
    pub fn token_for(&self, registry: &Registry) -> (r: Option<&String>)
        ensures
            (match r {
                Some(token) => Some(token@),
                None => None,
            }) == token_of(self@, registry@),
    {
        if registry.name.is_none() {
            return None;
        }
        self.tokens.get(registry.token_name())
    }

    /// Resolve the source recorded in `.crates.toml`, such as
    /// `registry+https://github.com/rust-lang/crates.io-index`, into the index
    /// we should ask about updates.
    pub fn resolve(&self, source: &str) -> (r: Result<Registry, Error>)
        ensures
            result_view(r) == resolved(self@, source@),
    {
        let url = trim_protocol(source);
        let named = match self.sources.get(url) {
            Some(name) => name.clone(),
            None => url.to_string(),
        };
        let name = match self.follow_replacements(named) {
            Ok(name) => name,
            Err(error) => return Err(error),
        };

        if same(name.as_str(), CRATES_IO_NAME) {
            if let Some(protocol) = &self.crates_io_protocol {
                if same(protocol.as_str(), "git") {
                    return Err(
                        Error::Registry(
                            "registry 'crates-io' uses a git index, which cargo-pkgman cannot query".to_string(),
                        ),
                    );
                }
            }
            return Ok(Registry::crates_io());
        }
        match self.indices.get(name.as_str()) {
            Some(index) => sparse_registry(Some(name), index.as_str(), url),
            None => {
                // An unreplaced source we have no configuration for. If it is
                // already sparse we can still query it directly.
                if self.sources.get(url).is_none() && self.replacements.get(url).is_none()
                    && !starts_with(url, "registry+") && !starts_with(url, "sparse+") {
                    return sparse_registry(Some(name), source, url);
                }
                let index = name.clone();
                sparse_registry(Some(name), index.as_str(), url)
            },
        }
    }

    fn follow_replacements(&self, name: String) -> (r: Result<String, Error>)
        ensures
            result_view(r) == followed(self@.replacements, name@),
    {
        // Replacement chains are short in practice; the bound is only here so
        // a cycle in the config cannot hang us.
        let mut current = name;
        let ghost start = name@;
        let mut left: u32 = MAX_REPLACEMENTS;
        while left > 0
            invariant
                left <= MAX_REPLACEMENTS,
                start == name@,
                chain_end(self@.replacements, start, MAX_REPLACEMENTS as nat) == chain_end(
                    self@.replacements,
                    current@,
                    left as nat,
                ),
                replaced_times(self@.replacements, start, MAX_REPLACEMENTS as nat)
                    == replaced_times(self@.replacements, current@, left as nat),
            decreases left,
        {
            match self.replacements.get(current.as_str()) {
                Some(target) => {
                    current = target.clone();
                },
                None => return Ok(current),
            }
            left = left - 1;
        }
        Err(
            Error::Config(
                concat3("source replacement for '", current.as_str(), "' is circular"),
            ),
        )
    }

    fn add_index(&mut self, name: String, index: String)
        ensures
            final(self)@ == with_index(old(self)@, name@, index@),
    {
        self.sources.insert(trim_protocol(index.as_str()).to_string(), name.clone());
        self.indices.insert(name, index);
    }

    fn add_token(&mut self, name: String, token: String)
        ensures
            final(self)@ == with_token(old(self)@, name@, token@),
    {
        self.tokens.insert(name, token);
    }

    fn apply_registry(&mut self, name: &String, entry: &Node)
        ensures
            final(self)@ == after_registry(old(self)@, name@, *entry),
    {
        if let Some(index) = entry.text_at("index") {
            self.add_index(name.clone(), index.clone());
        }
        if same(name.as_str(), CRATES_IO_NAME) {
            if let Some(protocol) = entry.text_at("protocol") {
                self.crates_io_protocol = Some(protocol.clone());
            }
        }
        if let Some(token) = entry.text_at("token") {
            self.add_token(name.clone(), token.clone());
        }
    }

    fn apply_source(&mut self, name: &String, entry: &Node)
        ensures
            final(self)@ == after_source(old(self)@, name@, *entry),
    {
        if let Some(target) = entry.text_at("replace-with") {
            self.replacements.insert(name.clone(), target.clone());
        }
        if let Some(index) = entry.text_at("registry") {
            self.add_index(name.clone(), index.clone());
        }
    }

    /// Takes over what a configuration document says.
    pub fn apply_document(&mut self, document: &Node, place: Option<ConfigPlace>)
        ensures
            final(self)@ == after_document(old(self)@, *document, place),
    {
        let ghost start = self@;
        if let Some(Node::Table(entries)) = document.get("registries") {
            let mut i: usize = 0;
            assert(entries@.skip(0) =~= entries@);
            while i < entries.len()
                invariant
                    i <= entries@.len(),
                    after_registries(start, entries@) == after_registries(
                        self@,
                        entries@.skip(i as int),
                    ),
                decreases entries@.len() - i,
            {
                assert(entries@.skip(i as int).skip(1) =~= entries@.skip(i + 1));
                self.apply_registry(&entries[i].0, &entries[i].1);
                i = i + 1;
            }
        }
        let ghost after_first = self@;
        assert(after_first == after_registries(
            start,
            entries_of(member(*document, "registries"@)),
        ));
        if let Some(Node::Table(entries)) = document.get("source") {
            let mut i: usize = 0;
            assert(entries@.skip(0) =~= entries@);
            while i < entries.len()
                invariant
                    i <= entries@.len(),
                    after_sources(after_first, entries@) == after_sources(
                        self@,
                        entries@.skip(i as int),
                    ),
                decreases entries@.len() - i,
            {
                assert(entries@.skip(i as int).skip(1) =~= entries@.skip(i + 1));
                self.apply_source(&entries[i].0, &entries[i].1);
                i = i + 1;
            }
        }
        assert(self@ == after_sources(after_first, entries_of(member(*document, "source"@))));
        if let Some(registry) = document.get("registry") {
            if let Some(default) = registry.text_at("default") {
                self.default_registry = Some(default.clone());
            }
            if let Some(token) = registry.text_at("token") {
                self.add_token(CRATES_IO_NAME.to_string(), token.clone());
            }
        }
        if let Some(install) = document.get("install") {
            if let Some(root) = install.text_at("root") {
                self.install_root = Some(InstallRoot { base: place, path: root.clone() });
            }
        }
    }

    /// Takes over what a configuration file in `place` says.
    pub fn apply_toml(&mut self, text: &str, place: Option<ConfigPlace>) -> (r: Result<(), Error>)
        ensures
            match after_toml(old(self)@, text@, place) {
                Ok(config) => r is Ok && final(self)@ == config,
                Err(error) => r matches Err(e) && e@ == error && final(self)@ == old(self)@,
            },
    {
        match parse_toml(text) {
            Ok(document) => {
                self.apply_document(&document, place);
                Ok(())
            },
            Err(message) => Err(
                Error::Config(concat2("could not parse Cargo config: ", message.as_str())),
            ),
        }
    }

    fn apply_variable(&mut self, key: &str, value: &String)
        ensures
            final(self)@ == after_variable(old(self)@, key@, value@),
    {
        if same(key, "CARGO_REGISTRIES_CRATES_IO_PROTOCOL") {
            self.crates_io_protocol = Some(value.clone());
        } else if same(key, "CARGO_REGISTRY_DEFAULT") {
            self.default_registry = Some(value.clone());
        } else if same(key, "CARGO_REGISTRY_TOKEN") {
            self.add_token(CRATES_IO_NAME.to_string(), value.clone());
        } else if same(key, "CARGO_INSTALL_ROOT") {
            self.install_root = Some(InstallRoot { base: None, path: value.clone() });
        } else if let Some(rest) = strip_prefix(key, "CARGO_REGISTRIES_") {
            if let Some(name) = strip_suffix(rest, "_INDEX") {
                self.add_index(env_key_to_name(name), value.clone());
            } else if let Some(name) = strip_suffix(rest, "_TOKEN") {
                self.add_token(env_key_to_name(name), value.clone());
            }
        } else if let Some(rest) = strip_prefix(key, "CARGO_SOURCE_") {
            if let Some(name) = strip_suffix(rest, "_REPLACE_WITH") {
                self.replacements.insert(env_key_to_name(name), value.clone());
            } else if let Some(name) = strip_suffix(rest, "_REGISTRY") {
                self.add_index(env_key_to_name(name), value.clone());
            }
        }
    }

    /// Takes over what the environment says.
    pub fn apply_env(&mut self, variables: &[(String, String)])
        ensures
            final(self)@ == after_environment(old(self)@, variables@),
    {
        let ghost start = self@;
        assert(variables@.skip(0) =~= variables@);
        let mut i: usize = 0;
        while i < variables.len()
            invariant
                i <= variables@.len(),
                after_environment(start, variables@) == after_environment(
                    self@,
                    variables@.skip(i as int),
                ),
            decreases variables@.len() - i,
        {
            assert(variables@.skip(i as int).skip(1) =~= variables@.skip(i + 1));
            self.apply_variable(variables[i].0.as_str(), &variables[i].1);
            i = i + 1;
        }
    }
}

/// The registry or source name that a part of an environment variable's name
/// stands for.
pub fn env_key_to_name(key: &str) -> (r: String)
    ensures
        r@ == env_name(key@),
{
    let chars = chars_of(key);
    let mut out = String::new();
    let mut i: usize = 0;
    while i < chars.len()
        invariant
            chars@ == key@,
            i <= chars@.len(),
            out@ =~= env_name(key@).take(i as int),
        decreases chars@.len() - i,
    {
        let c = chars[i];
        out.push(
            if c == '_' {
                '-'
            } else {
                to_lower_ascii(c)
            },
        );
        i = i + 1;
    }
    assert(env_name(key@).take(i as int) =~= env_name(key@));
    out
}

fn sparse_registry(name: Option<String>, index: &str, source: &str) -> (r: Result<Registry, Error>)
    ensures
        result_view(r) == sparse_or_refused(opt_text(name), index@, source@),
{
    let trimmed = trim_protocol(index);
    if same(trimmed, CRATES_IO_GIT) || same(trimmed, trim_protocol(CRATES_IO_SPARSE)) {
        return Ok(Registry::crates_io());
    }
    if !starts_with(index, "sparse+") {
        return Err(
            Error::Registry(
                concat3(
                    "registry '",
                    source,
                    "' uses a git index, which cargo-pkgman cannot query",
                ),
            ),
        );
    }
    let index = if ends_with(trimmed, "/") {
        trimmed.to_string()
    } else {
        concat2(trimmed, "/")
    };
    Ok(Registry { name, index })
}

/// Every registry that a source resolves to has an index URL with a slash at
/// its end.
pub proof fn resolved_index_ends_with_slash(config: RegistriesView, source: Seq<char>)
    ensures
        resolved(config, source) matches Ok(registry) ==> registry.index.len() > 0
            && registry.index.last() == '/',
{
    reveal_strlit("https://index.crates.io/");
    reveal_strlit("/");
    if let Ok(registry) = resolved(config, source) {
        if registry != crates_io_registry() {
            let index = registry.index;
            assert("/"@.is_suffix_of(index)) by {
                assert forall|url: Seq<char>| "/"@.is_suffix_of(#[trigger] with_slash(url)) by {
                    if !"/"@.is_suffix_of(url) {
                        assert(with_slash(url).skip(url.len() as int) =~= "/"@);
                    }
                }
            }
            assert("/"@[0] == index.subrange(index.len() - 1, index.len() as int)[0]);
        }
    }
}

/// A registry without a name is crates.io, and is asked at its sparse index.
pub proof fn unnamed_registry_is_crates_io(config: RegistriesView, source: Seq<char>)
    ensures
        resolved(config, source) matches Ok(registry) ==> registry.name is None ==> registry
            == crates_io_registry(),
{
}

/// A git index is never asked: whatever a source resolves to is crates.io or
/// was written with `sparse+`.
pub proof fn only_sparse_indices_are_asked(config: RegistriesView, source: Seq<char>)
    ensures
        resolved(config, source) matches Ok(registry) ==> registry == crates_io_registry() || (
        exists|index: Seq<char>| #[trigger]
            "sparse+"@.is_prefix_of(index) && registry.index == with_slash(trimmed(index))),
{
    if let Ok(registry) = resolved(config, source) {
        if registry != crates_io_registry() {
            let url = trimmed(source);
            let named = if config.sources.contains_key(url) {
                config.sources[url]
            } else {
                url
            };
            let name = followed(config.replacements, named)->Ok_0;
            let index = if config.indices.contains_key(name) {
                config.indices[name]
            } else if is_plain(config, url) {
                source
            } else {
                name
            };
            assert("sparse+"@.is_prefix_of(index));
        }
    }
}

/// Without any configuration, both URLs of crates.io lead to its sparse index,
/// with and without a protocol prefix.
pub proof fn crates_io_needs_no_configuration(source: Seq<char>)
    requires
        trimmed(source) == CRATES_IO_GIT@ || trimmed(source) == CRATES_IO_SPARSE@,
    ensures
        resolved(unconfigured(), source) == Ok::<RegistryView, ErrorView>(crates_io_registry()),
{
    reveal_strlit("https://index.crates.io/");
    reveal_strlit("registry+");
    reveal_strlit("sparse+");
    assert(!"registry+"@.is_prefix_of(CRATES_IO_SPARSE@)) by {
        assert("registry+"@[0] != CRATES_IO_SPARSE@.subrange(0, 9)[0]);
    }
    assert(!"sparse+"@.is_prefix_of(CRATES_IO_SPARSE@)) by {
        assert("sparse+"@[0] != CRATES_IO_SPARSE@.subrange(0, 7)[0]);
    }
    assert(trimmed(CRATES_IO_SPARSE@) == CRATES_IO_SPARSE@);
}

/// Replacements are followed to the end: the name that they lead to is not
/// replaced itself.
pub proof fn replacements_are_followed_to_the_end(
    replacements: Map<Seq<char>, Seq<char>>,
    name: Seq<char>,
)
    ensures
        followed(replacements, name) matches Ok(end) ==> !replacements.contains_key(end),
{
    lemma_chain_end(replacements, name, MAX_REPLACEMENTS as nat);
}

proof fn lemma_chain_end(
    replacements: Map<Seq<char>, Seq<char>>,
    name: Seq<char>,
    names: nat,
)
    ensures
        chain_end(replacements, name, names) matches Some(end) ==> !replacements.contains_key(end),
    decreases names,
{
    if names > 0 && replacements.contains_key(name) {
        lemma_chain_end(replacements, replacements[name], (names - 1) as nat);
    }
}

/// A replacement that leads into a cycle is an error: if `names` holds `name`
/// and each of them is replaced by another of them, there is no end to reach.
pub proof fn circular_replacement_is_refused(
    config: RegistriesView,
    names: Set<Seq<char>>,
    source: Seq<char>,
)
    requires
        forall|name: Seq<char>| #[trigger]
            names.contains(name) ==> config.replacements.contains_key(name) && names.contains(
                config.replacements[name],
            ),
        names.contains(
            if config.sources.contains_key(trimmed(source)) {
                config.sources[trimmed(source)]
            } else {
                trimmed(source)
            },
        ),
    ensures
        resolved(config, source) matches Err(ErrorView::Config(_)),
{
    let named = if config.sources.contains_key(trimmed(source)) {
        config.sources[trimmed(source)]
    } else {
        trimmed(source)
    };
    lemma_endless_chain(config.replacements, names, named, MAX_REPLACEMENTS as nat);
}

proof fn lemma_endless_chain(
    replacements: Map<Seq<char>, Seq<char>>,
    names: Set<Seq<char>>,
    name: Seq<char>,
    steps: nat,
)
    requires
        forall|name: Seq<char>| #[trigger]
            names.contains(name) ==> replacements.contains_key(name) && names.contains(
                replacements[name],
            ),
        names.contains(name),
    ensures
        chain_end(replacements, name, steps) is None,
    decreases steps,
{
    if steps > 0 {
        lemma_endless_chain(replacements, names, replacements[name], (steps - 1) as nat);
    }
}

/// A mirror is followed: a source that is replaced resolves to the index of the
/// name that replaces it.
pub proof fn mirror_answers_for_replaced_source(
    config: RegistriesView,
    source: Seq<char>,
    mirror: Seq<char>,
)
    requires
        config.sources.contains_key(trimmed(source)),
        config.replacements.contains_key(config.sources[trimmed(source)]),
        config.replacements[config.sources[trimmed(source)]] == mirror,
        !config.replacements.contains_key(mirror),
        mirror != CRATES_IO_NAME@,
        config.indices.contains_key(mirror),
    ensures
        resolved(config, source) == sparse_or_refused(
            Some(mirror),
            config.indices[mirror],
            trimmed(source),
        ),
{
    let name = config.sources[trimmed(source)];
    assert(chain_end(config.replacements, mirror, 15) == Some(mirror));
    assert(chain_end(config.replacements, name, 16) == chain_end(
        config.replacements,
        mirror,
        15,
    ));
}

/// Install records stand in Cargo's home unless an install root is set; a path
/// from the environment is taken from there too.
pub proof fn install_root_defaults_to_home(config: RegistriesView)
    ensures
        config.install_root is None ==> root_steps(config) == seq![
            RootStepView::Place(ConfigPlace::Home),
        ],
        config.install_root matches Some((None, path)) ==> root_steps(config) == seq![
            RootStepView::Place(ConfigPlace::Home),
            RootStepView::Path(path),
        ],
{
}

/// A sparse source that nothing configures or replaces is asked directly, under
/// its own URL.
pub proof fn sparse_source_needs_no_configuration(config: RegistriesView, url: Seq<char>)
    requires
        !config.sources.contains_key(url),
        !config.replacements.contains_key(url),
        !config.indices.contains_key(url),
        url != CRATES_IO_NAME@,
        !has_protocol(url),
    ensures
        resolved(config, "sparse+"@ + url) == Ok::<RegistryView, ErrorView>(
            if url == CRATES_IO_GIT@ || url == trimmed(CRATES_IO_SPARSE@) {
                crates_io_registry()
            } else {
                RegistryView { name: Some(url), index: with_slash(url) }
            },
        ),
{
    reveal_strlit("registry+");
    reveal_strlit("sparse+");
    let source = "sparse+"@ + url;
    assert(source[0] == 's' && "registry+"@[0] == 'r');
    assert(!"registry+"@.is_prefix_of(source)) by {
        if "registry+"@.is_prefix_of(source) {
            assert("registry+"@[0] == source.subrange(0, 9)[0]);
        }
    }
    assert("sparse+"@.is_prefix_of(source)) by {
        assert(source.subrange(0, 7) =~= "sparse+"@);
    }
    assert(source.skip(7) =~= url);
    assert(chain_end(config.replacements, url, MAX_REPLACEMENTS as nat) == Some(url));
}

/// A source that still names the sparse protocol when its own prefix is gone, and
/// that nothing configures or replaces, is asked at the URL behind that.
pub proof fn inner_protocol_counts(config: RegistriesView, source: Seq<char>)
    requires
        "sparse+"@.is_prefix_of(trimmed(source)),
        !config.sources.contains_key(trimmed(source)),
        !config.replacements.contains_key(trimmed(source)),
        !config.indices.contains_key(trimmed(source)),
    ensures
        resolved(config, source) matches Ok(registry) && (registry == crates_io_registry()
            || registry.index == with_slash(trimmed(trimmed(source)))),
{
    reveal_strlit("sparse+");
    reveal_strlit("crates-io");
    let url = trimmed(source);
    assert(url.subrange(0, 7)[0] == 's');
    assert(CRATES_IO_NAME@[0] == 'c');
    assert(chain_end(config.replacements, url, MAX_REPLACEMENTS as nat) == Some(url));
}

} // verus!
