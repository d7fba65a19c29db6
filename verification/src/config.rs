//! Which configuration files are read, in which order, and what they add up to.

use vstd::prelude::*;

use crate::error::{result_view, Error, ErrorView};
use crate::node::{entries_of, member, text_of, toml_document, Node};
use crate::registry::{
    after_document, after_environment, after_registries, after_registry, after_source,
    after_sources, after_toml, after_variable, env_name, submember, trimmed, unconfigured,
    ConfigPlace, Registries, RegistriesView, CRATES_IO_NAME,
};
use crate::text::texts;

verus! {

/// A configuration file to look for: the first of `names` that is a file in
/// `place` is the one to read.
#[derive(Debug)]
pub struct ConfigStep {
    /// The directory.
    pub place: ConfigPlace,
    /// The names of the file, the preferred one first.
    pub names: Vec<String>,
}

/// The value of a [`ConfigStep`].
#[verifier::ext_equal]
pub struct ConfigStepView {
    /// See [`ConfigStep::place`].
    pub place: ConfigPlace,
    /// See [`ConfigStep::names`].
    pub names: Seq<Seq<char>>,
}

impl View for ConfigStep {
    type V = ConfigStepView;

    open spec fn view(&self) -> ConfigStepView {
        ConfigStepView { place: self.place, names: texts(self.names@) }
    }
}

/// The configuration file of a directory. Cargo prefers the extensionless file
/// when both exist.
pub open spec fn settings_step(place: ConfigPlace) -> ConfigStepView {
    ConfigStepView { place, names: seq!["config"@, "config.toml"@] }
}

/// The credentials file in Cargo's home.
pub open spec fn credentials_step() -> ConfigStepView {
    ConfigStepView { place: ConfigPlace::Home, names: seq!["credentials.toml"@, "credentials"@] }
}

/// The steps for `ancestors` directories, the current one last.
pub open spec fn ancestor_steps(ancestors: nat) -> Seq<ConfigStepView> {
    Seq::new(
        ancestors,
        |i: int| settings_step(ConfigPlace::Ancestor((ancestors - 1 - i) as usize)),
    )
}

/// The files that make up the configuration, the lowest priority first: Cargo's
/// home, the current directory's ancestors from the root of the file system
/// down, then the credentials.
pub open spec fn config_steps(ancestors: nat) -> Seq<ConfigStepView> {
    seq![settings_step(ConfigPlace::Home)] + ancestor_steps(ancestors) + seq![credentials_step()]
}

fn names_of(first: &str, second: &str) -> (r: Vec<String>)
    ensures
        texts(r@) == seq![first@, second@],
{
    let mut names: Vec<String> = Vec::new();
    names.push(first.to_string());
    names.push(second.to_string());
    assert(texts(names@) =~= seq![first@, second@]);
    names
}

/// The files to read, in order, where `ancestors` counts the current directory
/// and all that lie above it.
pub fn config_plan(ancestors: usize) -> (r: Vec<ConfigStep>)
    ensures
        r@.map_values(|step: ConfigStep| step@) == config_steps(ancestors as nat),
{
    let mut plan: Vec<ConfigStep> = Vec::new();
    plan.push(
        ConfigStep { place: ConfigPlace::Home, names: names_of("config", "config.toml") },
    );
    let mut left: usize = ancestors;
    let ghost all = config_steps(ancestors as nat);
    while left > 0
        invariant
            left <= ancestors,
            all == config_steps(ancestors as nat),
            plan@.len() == 1 + ancestors - left,
            plan@.map_values(|step: ConfigStep| step@) =~= all.take(1 + ancestors - left),
        decreases left,
    {
        left = left - 1;
        let step = ConfigStep {
            place: ConfigPlace::Ancestor(left),
            names: names_of("config", "config.toml"),
        };
        assert(step@ == all[ancestors - left]);
        plan.push(step);
    }
    let last = ConfigStep {
        place: ConfigPlace::Home,
        names: names_of("credentials.toml", "credentials"),
    };
    assert(last@ == all.last());
    let ghost before = plan@.map_values(|step: ConfigStep| step@);
    plan.push(last);
    assert(plan@.map_values(|step: ConfigStep| step@) =~= before.push(last@));
    assert(all =~= all.take(1 + ancestors).push(all.last()));
    assert(plan@.map_values(|step: ConfigStep| step@) =~= all);
    plan
}

/// What was found for a [`ConfigStep`].
#[derive(Debug)]
pub enum Found {
    /// No such file.
    Missing,
    /// The file's text.
    Text(String),
    /// A file that could not be read.
    Unreadable(Error),
}

/// The value of [`Found`].
pub enum FoundView {
    /// See [`Found::Missing`].
    Missing,
    /// See [`Found::Text`].
    Text(Seq<char>),
    /// See [`Found::Unreadable`].
    Unreadable(ErrorView),
}

impl View for Found {
    type V = FoundView;

    open spec fn view(&self) -> FoundView {
        match *self {
            Found::Missing => FoundView::Missing,
            Found::Text(text) => FoundView::Text(text@),
            Found::Unreadable(error) => FoundView::Unreadable(error@),
        }
    }
}

/// The value of a list of findings, each with its place.
pub open spec fn findings(files: Seq<(ConfigPlace, Found)>) -> Seq<(ConfigPlace, FoundView)> {
    Seq::new(files.len(), |i: int| (files[i].0, files[i].1@))
}

/// The configuration after one more file.
pub open spec fn after_file(
    config: RegistriesView,
    place: ConfigPlace,
    found: FoundView,
) -> Result<RegistriesView, ErrorView> {
    match found {
        FoundView::Missing => Ok(config),
        FoundView::Text(text) => after_toml(config, text, Some(place)),
        FoundView::Unreadable(error) => Err(error),
    }
}

/// The configuration after some files, or the error of the first one that
/// cannot be taken over.
pub open spec fn after_files(
    config: RegistriesView,
    files: Seq<(ConfigPlace, FoundView)>,
) -> Result<RegistriesView, ErrorView>
    decreases files.len(),
{
    if files.len() == 0 {
        Ok(config)
    } else {
        match after_file(config, files[0].0, files[0].1) {
            Ok(next) => after_files(next, files.skip(1)),
            Err(error) => Err(error),
        }
    }
}

/// The configuration that files and, after them, the environment add up to.
pub open spec fn loaded(
    files: Seq<(ConfigPlace, FoundView)>,
    variables: Seq<(String, String)>,
) -> Result<RegistriesView, ErrorView> {
    match after_files(unconfigured(), files) {
        Ok(config) => Ok(after_environment(config, variables)),
        Err(error) => Err(error),
    }
}

/// The configuration of a Cargo home alone: its configuration file and then its
/// credentials.
pub open spec fn home_config(settings: FoundView, credentials: FoundView) -> Result<
    RegistriesView,
    ErrorView,
> {
    after_files(
        unconfigured(),
        seq![(ConfigPlace::Home, settings), (ConfigPlace::Home, credentials)],
    )
}

impl Registries {
    /// Takes over what was found for a step. An error leaves everything as it
    /// was.
    pub fn apply_found(&mut self, place: ConfigPlace, found: Found) -> (r: Result<(), Error>)
        ensures
            match after_file(old(self)@, place, found@) {
                Ok(config) => r is Ok && final(self)@ == config,
                Err(error) => r matches Err(e) && e@ == error && final(self)@ == old(self)@,
            },
    {
        match found {
            Found::Missing => Ok(()),
            Found::Text(text) => self.apply_toml(text.as_str(), Some(place)),
            Found::Unreadable(error) => Err(error),
        }
    }

    /// The configuration that the files of a [`config_plan`] and the
    /// environment add up to.
    pub fn load(files: Vec<(ConfigPlace, Found)>, variables: &[(String, String)]) -> (r: Result<
        Self,
        Error,
    >)
        ensures
            result_view(r) == loaded(findings(files@), variables@),
    {
        let mut left = files;
        let mut registries = Registries::new();
        while left.len() > 0
            invariant
                after_files(unconfigured(), findings(files@)) == after_files(
                    registries@,
                    findings(left@),
                ),
            decreases left@.len(),
        {
            let ghost before = left@;
            let (place, found) = left.remove(0);
            assert(findings(left@) =~= findings(before).skip(1));
            match registries.apply_found(place, found) {
                Ok(()) => {},
                Err(error) => return Err(error),
            }
        }
        registries.apply_env(variables);
        Ok(registries)
    }

    /// The configuration of a Cargo home alone, without the current directory
    /// or the environment: its configuration file and its credentials.
    pub fn load_from_home(settings: Found, credentials: Found) -> (r: Result<Self, Error>)
        ensures
            result_view(r) == home_config(settings@, credentials@),
    {
        let mut files: Vec<(ConfigPlace, Found)> = Vec::new();
        files.push((ConfigPlace::Home, settings));
        files.push((ConfigPlace::Home, credentials));
        let variables: Vec<(String, String)> = Vec::new();
        assert(findings(files@) =~= seq![
            (ConfigPlace::Home, settings@),
            (ConfigPlace::Home, credentials@),
        ]);
        Registries::load(files, variables.as_slice())
    }
}

/// The value under a key, if there is one.
pub open spec fn looked_up(map: Map<Seq<char>, Seq<char>>, key: Seq<char>) -> Option<Seq<char>> {
    if map.contains_key(key) {
        Some(map[key])
    } else {
        None
    }
}

/// What the entries called `name` leave of a setting: the last one that has a
/// text under `key` decides, and without any the setting stays as it was.
pub open spec fn set_by(
    before: Option<Seq<char>>,
    entries: Seq<(String, Node)>,
    name: Seq<char>,
    key: Seq<char>,
) -> Option<Seq<char>>
    decreases entries.len(),
{
    if entries.len() == 0 {
        before
    } else {
        let text = text_of(member(entries[0].1, key));
        set_by(
            if entries[0].0@ == name && text is Some {
                text
            } else {
                before
            },
            entries.skip(1),
            name,
            key,
        )
    }
}

/// What some entries leave of the name under which an index URL is known: the
/// last one that has the URL as its text under `key` gives it its own name, and
/// without any the URL keeps the name that it had.
pub open spec fn named_by(
    before: Option<Seq<char>>,
    entries: Seq<(String, Node)>,
    url: Seq<char>,
    key: Seq<char>,
) -> Option<Seq<char>>
    decreases entries.len(),
{
    if entries.len() == 0 {
        before
    } else {
        named_by(
            if gives_url(entries[0].1, url, key) {
                Some(entries[0].0@)
            } else {
                before
            },
            entries.skip(1),
            url,
            key,
        )
    }
}

/// Whether an entry has `url`, with or without a protocol, under `key`.
pub open spec fn gives_url(entry: Node, url: Seq<char>, key: Seq<char>) -> bool {
    text_of(member(entry, key)) matches Some(index) && trimmed(index) == url
}

proof fn lemma_registries_set(
    config: RegistriesView,
    entries: Seq<(String, Node)>,
    name: Seq<char>,
)
    ensures
        ({
            let after = after_registries(config, entries);
            &&& looked_up(after.indices, name) == set_by(
                looked_up(config.indices, name),
                entries,
                name,
                "index"@,
            )
            &&& looked_up(after.tokens, name) == set_by(
                looked_up(config.tokens, name),
                entries,
                name,
                "token"@,
            )
            &&& after.crates_io_protocol == set_by(
                config.crates_io_protocol,
                entries,
                CRATES_IO_NAME@,
                "protocol"@,
            )
            &&& looked_up(after.sources, name) == named_by(
                looked_up(config.sources, name),
                entries,
                name,
                "index"@,
            )
            &&& after.replacements == config.replacements
            &&& after.default_registry == config.default_registry
            &&& after.install_root == config.install_root
        }),
    decreases entries.len(),
{
    if entries.len() > 0 {
        lemma_registries_set(
            after_registry(config, entries[0].0@, entries[0].1),
            entries.skip(1),
            name,
        );
    }
}

proof fn lemma_sources_set(config: RegistriesView, entries: Seq<(String, Node)>, name: Seq<char>)
    ensures
        ({
            let after = after_sources(config, entries);
            &&& looked_up(after.indices, name) == set_by(
                looked_up(config.indices, name),
                entries,
                name,
                "registry"@,
            )
            &&& looked_up(after.replacements, name) == set_by(
                looked_up(config.replacements, name),
                entries,
                name,
                "replace-with"@,
            )
            &&& looked_up(after.sources, name) == named_by(
                looked_up(config.sources, name),
                entries,
                name,
                "registry"@,
            )
            &&& after.tokens == config.tokens
            &&& after.crates_io_protocol == config.crates_io_protocol
            &&& after.default_registry == config.default_registry
            &&& after.install_root == config.install_root
        }),
    decreases entries.len(),
{
    if entries.len() > 0 {
        lemma_sources_set(
            after_source(config, entries[0].0@, entries[0].1),
            entries.skip(1),
            name,
        );
    }
}

/// The text under two keys, one inside the other.
pub open spec fn text_under(document: Node, table: Seq<char>, key: Seq<char>) -> Option<Seq<char>> {
    text_of(submember(member(document, table), key))
}

/// A setting that may be replaced by a text.
pub open spec fn replaced_by(before: Option<Seq<char>>, text: Option<Seq<char>>) -> Option<
    Seq<char>,
> {
    if text is Some {
        text
    } else {
        before
    }
}

/// A file that is read later wins, setting by setting: what it says of a
/// registry, a source, an index URL, the default registry, a token or the
/// install root stands, and what it does not mention stays as it was. Here
/// `name` is any registry, source or URL.
pub proof fn later_document_wins(
    config: RegistriesView,
    document: Node,
    place: Option<ConfigPlace>,
    name: Seq<char>,
)
    ensures
        ({
            let after = after_document(config, document, place);
            let registries = entries_of(member(document, "registries"@));
            let sources = entries_of(member(document, "source"@));
            let token = set_by(looked_up(config.tokens, name), registries, name, "token"@);
            let root = text_under(document, "install"@, "root"@);
            &&& looked_up(after.indices, name) == set_by(
                set_by(looked_up(config.indices, name), registries, name, "index"@),
                sources,
                name,
                "registry"@,
            )
            &&& looked_up(after.replacements, name) == set_by(
                looked_up(config.replacements, name),
                sources,
                name,
                "replace-with"@,
            )
            &&& looked_up(after.sources, name) == named_by(
                named_by(looked_up(config.sources, name), registries, name, "index"@),
                sources,
                name,
                "registry"@,
            )
            &&& looked_up(after.tokens, name) == if name == CRATES_IO_NAME@ {
                replaced_by(token, text_under(document, "registry"@, "token"@))
            } else {
                token
            }
            &&& after.default_registry == replaced_by(
                config.default_registry,
                text_under(document, "registry"@, "default"@),
            )
            &&& after.crates_io_protocol == set_by(
                config.crates_io_protocol,
                registries,
                CRATES_IO_NAME@,
                "protocol"@,
            )
            &&& after.install_root == if root is Some {
                Some((place, root->0))
            } else {
                config.install_root
            }
        }),
{
    let registries = entries_of(member(document, "registries"@));
    let sources = entries_of(member(document, "source"@));
    lemma_registries_set(config, registries, name);
    lemma_sources_set(after_registries(config, registries), sources, name);
}

/// Whether no entry called `name` has a text under `key`.
pub open spec fn leaves_alone(
    entries: Seq<(String, Node)>,
    name: Seq<char>,
    key: Seq<char>,
) -> bool {
    forall|i: int|
        0 <= i < entries.len() && (#[trigger] entries[i]).0@ == name ==> text_of(
            member(entries[i].1, key),
        ) is None
}

/// Whether no entry has the URL under `key`.
pub open spec fn leaves_url_alone(
    entries: Seq<(String, Node)>,
    url: Seq<char>,
    key: Seq<char>,
) -> bool {
    forall|i: int| 0 <= i < entries.len() ==> !gives_url((#[trigger] entries[i]).1, url, key)
}

/// Entries of other names, or without a text under `key`, set nothing.
proof fn lemma_set_by(
    before: Option<Seq<char>>,
    entries: Seq<(String, Node)>,
    name: Seq<char>,
    key: Seq<char>,
)
    ensures
        set_by(before, entries, name, key) == replaced_by(
            before,
            set_by(None, entries, name, key),
        ),
        leaves_alone(entries, name, key) ==> set_by(before, entries, name, key) == before,
    decreases entries.len(),
{
    if entries.len() > 0 {
        let text = text_of(member(entries[0].1, key));
        let next = if entries[0].0@ == name && text is Some {
            text
        } else {
            before
        };
        let from_none = if entries[0].0@ == name && text is Some {
            text
        } else {
            None
        };
        lemma_set_by(next, entries.skip(1), name, key);
        lemma_set_by(from_none, entries.skip(1), name, key);
        assert(forall|i: int|
            0 <= i < entries.len() - 1 ==> #[trigger] entries.skip(1)[i] == entries[i + 1]);
    }
}

/// Entries without the URL under `key` name nothing.
proof fn lemma_named_by(
    before: Option<Seq<char>>,
    entries: Seq<(String, Node)>,
    url: Seq<char>,
    key: Seq<char>,
)
    ensures
        named_by(before, entries, url, key) == replaced_by(
            before,
            named_by(None, entries, url, key),
        ),
        leaves_url_alone(entries, url, key) ==> named_by(before, entries, url, key) == before,
    decreases entries.len(),
{
    if entries.len() > 0 {
        let next = if gives_url(entries[0].1, url, key) {
            Some(entries[0].0@)
        } else {
            before
        };
        let from_none = if gives_url(entries[0].1, url, key) {
            Some(entries[0].0@)
        } else {
            None
        };
        lemma_named_by(next, entries.skip(1), url, key);
        lemma_named_by(from_none, entries.skip(1), url, key);
        assert(forall|i: int|
            0 <= i < entries.len() - 1 ==> #[trigger] entries.skip(1)[i] == entries[i + 1]);
    }
}

/// What a document does not set keeps its value: the index, replacement and
/// token of a name, the name of an index URL, the default registry, the protocol
/// of crates.io and the install root. Here `name` is any registry, source or
/// URL.
pub proof fn unset_settings_stay(
    config: RegistriesView,
    document: Node,
    place: Option<ConfigPlace>,
    name: Seq<char>,
)
    ensures
        ({
            let after = after_document(config, document, place);
            let registries = entries_of(member(document, "registries"@));
            let sources = entries_of(member(document, "source"@));
            &&& leaves_alone(registries, name, "index"@) && leaves_alone(
                sources,
                name,
                "registry"@,
            ) ==> looked_up(after.indices, name) == looked_up(config.indices, name)
            &&& leaves_alone(sources, name, "replace-with"@) ==> looked_up(
                after.replacements,
                name,
            ) == looked_up(config.replacements, name)
            &&& leaves_url_alone(registries, name, "index"@) && leaves_url_alone(
                sources,
                name,
                "registry"@,
            ) ==> looked_up(after.sources, name) == looked_up(config.sources, name)
            &&& leaves_alone(registries, name, "token"@) && (name != CRATES_IO_NAME@ || text_under(
                document,
                "registry"@,
                "token"@,
            ) is None) ==> looked_up(after.tokens, name) == looked_up(config.tokens, name)
            &&& leaves_alone(registries, CRATES_IO_NAME@, "protocol"@) ==> after.crates_io_protocol
                == config.crates_io_protocol
            &&& text_under(document, "registry"@, "default"@) is None ==> after.default_registry
                == config.default_registry
            &&& text_under(document, "install"@, "root"@) is None ==> after.install_root
                == config.install_root
        }),
{
    let registries = entries_of(member(document, "registries"@));
    let sources = entries_of(member(document, "source"@));
    later_document_wins(config, document, place, name);
    let index = looked_up(config.indices, name);
    let url = looked_up(config.sources, name);
    lemma_set_by(index, registries, name, "index"@);
    lemma_set_by(set_by(index, registries, name, "index"@), sources, name, "registry"@);
    lemma_set_by(looked_up(config.replacements, name), sources, name, "replace-with"@);
    lemma_named_by(url, registries, name, "index"@);
    lemma_named_by(named_by(url, registries, name, "index"@), sources, name, "registry"@);
    lemma_set_by(looked_up(config.tokens, name), registries, name, "token"@);
    lemma_set_by(config.crates_io_protocol, registries, CRATES_IO_NAME@, "protocol"@);
}

/// Two maps that hold the same under every key are the same.
proof fn lemma_same_map(left: Map<Seq<char>, Seq<char>>, right: Map<Seq<char>, Seq<char>>)
    requires
        forall|key: Seq<char>| #[trigger] looked_up(left, key) == looked_up(right, key),
    ensures
        left == right,
{
    assert forall|key: Seq<char>| #[trigger]
        left.contains_key(key) == right.contains_key(key) by {
        assert(looked_up(left, key) == looked_up(right, key));
    }
    assert forall|key: Seq<char>| left.contains_key(key) implies #[trigger] left[key]
        == right[key] by {
        assert(looked_up(left, key) == looked_up(right, key));
    }
    assert(left =~= right);
}

/// What a document sets in a map under one key does not depend on the map, so
/// that setting it again changes nothing.
proof fn lemma_same_setting(
    config: RegistriesView,
    document: Node,
    place: Option<ConfigPlace>,
    name: Seq<char>,
)
    ensures
        ({
            let once = after_document(config, document, place);
            let twice = after_document(once, document, place);
            &&& looked_up(twice.indices, name) == looked_up(once.indices, name)
            &&& looked_up(twice.replacements, name) == looked_up(once.replacements, name)
            &&& looked_up(twice.sources, name) == looked_up(once.sources, name)
            &&& looked_up(twice.tokens, name) == looked_up(once.tokens, name)
            &&& twice.crates_io_protocol == once.crates_io_protocol
            &&& twice.default_registry == once.default_registry
            &&& twice.install_root == once.install_root
        }),
{
    let once = after_document(config, document, place);
    lemma_overrides(config, document, place, name);
    lemma_overrides(once, document, place, name);
    later_document_wins(config, document, place, name);
    later_document_wins(once, document, place, name);
}

/// Every setting is either overridden by a document, whatever it was, or kept.
proof fn lemma_overrides(
    config: RegistriesView,
    document: Node,
    place: Option<ConfigPlace>,
    name: Seq<char>,
)
    ensures
        ({
            let after = after_document(config, document, place);
            let registries = entries_of(member(document, "registries"@));
            let sources = entries_of(member(document, "source"@));
            let token = replaced_by(
                looked_up(config.tokens, name),
                set_by(None, registries, name, "token"@),
            );
            &&& looked_up(after.indices, name) == replaced_by(
                replaced_by(
                    looked_up(config.indices, name),
                    set_by(None, registries, name, "index"@),
                ),
                set_by(None, sources, name, "registry"@),
            )
            &&& looked_up(after.replacements, name) == replaced_by(
                looked_up(config.replacements, name),
                set_by(None, sources, name, "replace-with"@),
            )
            &&& looked_up(after.sources, name) == replaced_by(
                replaced_by(
                    looked_up(config.sources, name),
                    named_by(None, registries, name, "index"@),
                ),
                named_by(None, sources, name, "registry"@),
            )
            &&& looked_up(after.tokens, name) == if name == CRATES_IO_NAME@ {
                replaced_by(token, text_under(document, "registry"@, "token"@))
            } else {
                token
            }
            &&& after.crates_io_protocol == replaced_by(
                config.crates_io_protocol,
                set_by(None, registries, CRATES_IO_NAME@, "protocol"@),
            )
        }),
{
    let registries = entries_of(member(document, "registries"@));
    let sources = entries_of(member(document, "source"@));
    later_document_wins(config, document, place, name);
    let index = looked_up(config.indices, name);
    let url = looked_up(config.sources, name);
    lemma_set_by(index, registries, name, "index"@);
    lemma_set_by(set_by(index, registries, name, "index"@), sources, name, "registry"@);
    lemma_set_by(looked_up(config.replacements, name), sources, name, "replace-with"@);
    lemma_named_by(url, registries, name, "index"@);
    lemma_named_by(named_by(url, registries, name, "index"@), sources, name, "registry"@);
    lemma_set_by(looked_up(config.tokens, name), registries, name, "token"@);
    lemma_set_by(config.crates_io_protocol, registries, CRATES_IO_NAME@, "protocol"@);
}

/// Taking over the same file again changes nothing.
pub proof fn same_file_again_changes_nothing(
    config: RegistriesView,
    text: Seq<char>,
    place: Option<ConfigPlace>,
)
    ensures
        after_toml(config, text, place) matches Ok(once) ==> after_toml(once, text, place) == Ok::<
            RegistriesView,
            ErrorView,
        >(once),
        after_toml(config, text, place) matches Err(error) ==> error is Config,
{
    if let Ok(document) = toml_document(text) {
        let once = after_document(config, document, place);
        let twice = after_document(once, document, place);
        assert forall|name: Seq<char>| #[trigger]
            looked_up(twice.indices, name) == looked_up(once.indices, name) by {
            lemma_same_setting(config, document, place, name);
        }
        assert forall|name: Seq<char>| #[trigger]
            looked_up(twice.replacements, name) == looked_up(once.replacements, name) by {
            lemma_same_setting(config, document, place, name);
        }
        assert forall|name: Seq<char>| #[trigger]
            looked_up(twice.sources, name) == looked_up(once.sources, name) by {
            lemma_same_setting(config, document, place, name);
        }
        assert forall|name: Seq<char>| #[trigger]
            looked_up(twice.tokens, name) == looked_up(once.tokens, name) by {
            lemma_same_setting(config, document, place, name);
        }
        lemma_same_map(twice.indices, once.indices);
        lemma_same_map(twice.replacements, once.replacements);
        lemma_same_map(twice.sources, once.sources);
        lemma_same_map(twice.tokens, once.tokens);
        lemma_same_setting(config, document, place, Seq::empty());
        assert(twice == once);
    }
}

/// Files are taken over one after another: more files go on from what the
/// first ones came to.
pub proof fn files_accumulate(
    config: RegistriesView,
    first: Seq<(ConfigPlace, FoundView)>,
    more: Seq<(ConfigPlace, FoundView)>,
)
    ensures
        after_files(config, first + more) == (match after_files(config, first) {
            Ok(next) => after_files(next, more),
            Err(error) => Err(error),
        }),
    decreases first.len(),
{
    if first.len() == 0 {
        assert(first + more =~= more);
    } else {
        assert((first + more)[0] == first[0]);
        assert((first + more).skip(1) =~= first.skip(1) + more);
        match after_file(config, first[0].0, first[0].1) {
            Ok(next) => files_accumulate(next, first.skip(1), more),
            Err(_) => {},
        }
    }
}

/// The environment wins over every file: `CARGO_REGISTRY_DEFAULT`,
/// `CARGO_INSTALL_ROOT` and `CARGO_REGISTRIES_CRATES_IO_PROTOCOL` decide,
/// whatever the files say.
pub proof fn environment_wins(
    config: RegistriesView,
    variables: Seq<(String, String)>,
    i: int,
)
    requires
        0 <= i < variables.len(),
        forall|j: int| i < j < variables.len() ==> (#[trigger] variables[j]).0@ != variables[i].0@,
    ensures
        ({
            let after = after_environment(config, variables);
            let (key, value) = (variables[i].0@, variables[i].1@);
            &&& key == "CARGO_REGISTRY_DEFAULT"@ ==> after.default_registry == Some(value)
            &&& key == "CARGO_INSTALL_ROOT"@ ==> after.install_root == Some((None::<ConfigPlace>, value))
            &&& key == "CARGO_REGISTRIES_CRATES_IO_PROTOCOL"@ ==> after.crates_io_protocol == Some(
                value,
            )
        }),
    decreases variables.len(),
{
    let first = after_variable(config, variables[0].0@, variables[0].1@);
    reveal_strlit("CARGO_REGISTRY_DEFAULT");
    reveal_strlit("CARGO_REGISTRY_TOKEN");
    reveal_strlit("CARGO_INSTALL_ROOT");
    reveal_strlit("CARGO_REGISTRIES_CRATES_IO_PROTOCOL");
    if i == 0 {
        lemma_variables_keep(first, variables.skip(1), variables[0].0@);
    } else {
        assert(variables.skip(1)[i - 1] == variables[i]);
        environment_wins(first, variables.skip(1), i - 1);
    }
}

/// Variables of other names keep what one variable set.
proof fn lemma_variables_keep(
    config: RegistriesView,
    variables: Seq<(String, String)>,
    key: Seq<char>,
)
    requires
        forall|j: int| 0 <= j < variables.len() ==> (#[trigger] variables[j]).0@ != key,
    ensures
        ({
            let after = after_environment(config, variables);
            &&& key == "CARGO_REGISTRY_DEFAULT"@ ==> after.default_registry
                == config.default_registry
            &&& key == "CARGO_INSTALL_ROOT"@ ==> after.install_root == config.install_root
            &&& key == "CARGO_REGISTRIES_CRATES_IO_PROTOCOL"@ ==> after.crates_io_protocol
                == config.crates_io_protocol
        }),
    decreases variables.len(),
{
    if variables.len() > 0 {
        assert(variables[0].0@ != key);
        assert forall|j: int| 0 <= j < variables.skip(1).len() implies (#[trigger] variables.skip(
            1,
        )[j]).0@ != key by {
            assert(variables.skip(1)[j] == variables[j + 1]);
        }
        lemma_variables_keep(
            after_variable(config, variables[0].0@, variables[0].1@),
            variables.skip(1),
            key,
        );
    }
}

/// `CARGO_REGISTRIES_<NAME>_TOKEN` sets the token of a registry, whatever the
/// name is.
pub proof fn environment_sets_token(config: RegistriesView, name: Seq<char>, token: Seq<char>)
    ensures
        looked_up(
            after_variable(config, "CARGO_REGISTRIES_"@ + name + "_TOKEN"@, token).tokens,
            env_name(name),
        ) == Some(token),
{
    let key = "CARGO_REGISTRIES_"@ + name + "_TOKEN"@;
    reveal_strlit("CARGO_REGISTRIES_CRATES_IO_PROTOCOL");
    reveal_strlit("CARGO_REGISTRY_DEFAULT");
    reveal_strlit("CARGO_REGISTRY_TOKEN");
    reveal_strlit("CARGO_INSTALL_ROOT");
    reveal_strlit("CARGO_REGISTRIES_");
    reveal_strlit("_INDEX");
    reveal_strlit("_TOKEN");
    assert(key.last() == 'N');
    assert(key[13] == 'I');
    assert("CARGO_REGISTRY_TOKEN"@[13] == 'Y');
    assert("CARGO_REGISTRIES_CRATES_IO_PROTOCOL"@.last() == 'L');
    assert("CARGO_REGISTRY_DEFAULT"@.last() == 'T');
    assert("CARGO_INSTALL_ROOT"@.last() == 'T');
    assert("CARGO_REGISTRIES_"@.is_prefix_of(key));
    let rest = key.skip("CARGO_REGISTRIES_"@.len() as int);
    assert(rest =~= name + "_TOKEN"@);
    assert(rest.last() == 'N');
    assert("_INDEX"@.last() == 'X');
    assert(!"_INDEX"@.is_suffix_of(rest)) by {
        if "_INDEX"@.is_suffix_of(rest) {
            assert("_INDEX"@ == rest.subrange(rest.len() - 6, rest.len() as int));
            assert("_INDEX"@[5] == rest[rest.len() - 1]);
        }
    }
    assert("_TOKEN"@.is_suffix_of(rest));
    assert(rest.take(rest.len() - 6) =~= name);
}

} // verus!
