//! Laws of the configuration: which registry answers for a source, and what each
//! file and variable is for.

use vstd::prelude::*;

use crate::config::{
    after_file, after_files, config_steps, home_config, loaded, ConfigStepView, FoundView,
};
use crate::error::ErrorView;
use crate::node::toml_document;
use crate::registry::{
    after_document, after_environment, after_variable, crates_io_registry, env_name, followed,
    resolved, root_steps, sparse_or_refused, token_name_of, token_of, trimmed, unconfigured,
    with_slash, ConfigPlace, RegistriesView, RegistryView, RootStepView,
};

verus! {

/// A protocol in front of a URL comes off, once; a URL without one stays.
pub proof fn protocols_come_off(url: Seq<char>)
    ensures
        trimmed("registry+"@ + url) == url,
        trimmed("sparse+"@ + url) == url,
        !"registry+"@.is_prefix_of(url) && !"sparse+"@.is_prefix_of(url) ==> trimmed(url) == url,
{
    reveal_strlit("registry+");
    reveal_strlit("sparse+");
    let registry = "registry+"@ + url;
    let sparse = "sparse+"@ + url;
    assert(registry.subrange(0, 9) =~= "registry+"@);
    assert(sparse.subrange(0, 7) =~= "sparse+"@);
    assert(registry.skip(9) =~= url);
    assert(sparse.skip(7) =~= url);
    assert(!"registry+"@.is_prefix_of(sparse)) by {
        if "registry+"@.is_prefix_of(sparse) {
            assert("registry+"@[0] == 'r' && sparse[0] == 's');
            assert("registry+"@[0] == sparse.subrange(0, 9)[0]);
        }
    }
}

/// A slash is put behind a URL that does not end with one, and only then.
pub proof fn urls_end_with_one_slash(url: Seq<char>)
    ensures
        with_slash(url.push('/')) == url.push('/'),
        url.len() == 0 || url.last() != '/' ==> with_slash(url) == url.push('/'),
{
    reveal_strlit("/");
    let closed = url.push('/');
    assert(closed.subrange(closed.len() - 1, closed.len() as int) =~= "/"@);
    assert(url + "/"@ =~= closed);
    if "/"@.is_suffix_of(url) {
        assert("/"@[0] == url.subrange(url.len() - 1, url.len() as int)[0]);
    }
}

/// crates.io has no name for `--registry` and is asked at its sparse index. Its
/// token, like that of any registry, goes by its name.
pub proof fn crates_io_is_known(name: Seq<char>, index: Seq<char>)
    ensures
        crates_io_registry().name is None,
        crates_io_registry().index == "https://index.crates.io/"@,
        token_name_of(crates_io_registry()) == "crates-io"@,
        token_name_of(RegistryView { name: Some(name), index }) == name,
{
}

/// A registry with a name gets the token under its name, if there is one, and
/// crates.io gets none.
pub proof fn tokens_go_to_their_registries(
    config: RegistriesView,
    name: Seq<char>,
    token: Seq<char>,
    index: Seq<char>,
)
    ensures
        token_of(config, RegistryView { name: None, index }) is None,
        (token_of(config, RegistryView { name: Some(name), index }) == Some(token)) == (
        config.tokens.contains_key(name) && config.tokens[name] == token),
        !config.tokens.contains_key(name) ==> token_of(
            config,
            RegistryView { name: Some(name), index },
        ) is None,
{
}

/// Of a Cargo home alone the configuration is read first, and the credentials over
/// it.
pub proof fn credentials_come_second(settings: FoundView, credentials: FoundView)
    ensures
        home_config(settings, credentials) == match after_file(
            unconfigured(),
            ConfigPlace::Home,
            settings,
        ) {
            Ok(config) => after_file(config, ConfigPlace::Home, credentials),
            Err(error) => Err(error),
        },
{
    let files = seq![(ConfigPlace::Home, settings), (ConfigPlace::Home, credentials)];
    assert(files.skip(1).skip(1) =~= Seq::<(ConfigPlace, FoundView)>::empty());
    if let Ok(config) = after_file(unconfigured(), ConfigPlace::Home, settings) {
        assert(files.skip(1)[0] == (ConfigPlace::Home, credentials));
        assert(after_files(config, files.skip(1)) == match after_file(
            config,
            ConfigPlace::Home,
            credentials,
        ) {
            Ok(next) => after_files(next, files.skip(1).skip(1)),
            Err(error) => Err(error),
        });
    }
}

/// Without configuration, only the two URLs of crates.io have a name, and
/// nothing else is set.
pub proof fn only_crates_io_is_known_at_first(url: Seq<char>)
    ensures
        unconfigured().sources.contains_key(url) == (url
            == "https://github.com/rust-lang/crates.io-index"@ || url
            == "https://index.crates.io/"@),
        unconfigured().sources.contains_key(url) ==> unconfigured().sources[url] == "crates-io"@,
        unconfigured().indices == Map::<Seq<char>, Seq<char>>::empty(),
        unconfigured().replacements == Map::<Seq<char>, Seq<char>>::empty(),
        unconfigured().tokens == Map::<Seq<char>, Seq<char>>::empty(),
        unconfigured().default_registry is None,
        unconfigured().crates_io_protocol is None,
        unconfigured().install_root is None,
{
    lemma_sparse_url();
}

/// The sparse URL of crates.io has no protocol in front.
proof fn lemma_sparse_url()
    ensures
        trimmed("https://index.crates.io/"@) == "https://index.crates.io/"@,
{
    reveal_strlit("https://index.crates.io/");
    reveal_strlit("registry+");
    reveal_strlit("sparse+");
    let url = "https://index.crates.io/"@;
    if "registry+"@.is_prefix_of(url) {
        assert("registry+"@[0] == url.subrange(0, 9)[0]);
    }
    if "sparse+"@.is_prefix_of(url) {
        assert("sparse+"@[0] == url.subrange(0, 7)[0]);
    }
}

/// Whether each name of a chain is replaced by the next one.
pub open spec fn is_chain(replacements: Map<Seq<char>, Seq<char>>, chain: Seq<Seq<char>>) -> bool {
    &&& chain.len() > 0
    &&& forall|i: int|
        0 <= i < chain.len() - 1 ==> replacements.contains_key(#[trigger] chain[i])
            && replacements[chain[i]] == chain[i + 1]
}

/// Replacements are followed through up to sixteen names, to the one that nothing
/// replaces. A longer chain is taken for a circle, and the error names where it
/// was left.
pub proof fn chains_of_sixteen_names_are_followed(
    replacements: Map<Seq<char>, Seq<char>>,
    chain: Seq<Seq<char>>,
)
    requires
        is_chain(replacements, chain),
    ensures
        chain.len() <= 16 && !replacements.contains_key(chain.last()) ==> followed(
            replacements,
            chain[0],
        ) == Ok::<Seq<char>, ErrorView>(chain.last()),
        chain.len() == 17 ==> followed(replacements, chain[0]) == Err::<Seq<char>, ErrorView>(
            ErrorView::Config("source replacement for '"@ + chain[16] + "' is circular"@),
        ),
{
    lemma_chain(replacements, chain, 16);
}

proof fn lemma_chain(
    replacements: Map<Seq<char>, Seq<char>>,
    chain: Seq<Seq<char>>,
    names: nat,
)
    requires
        is_chain(replacements, chain),
    ensures
        chain.len() <= names && !replacements.contains_key(chain.last())
            ==> crate::registry::chain_end(replacements, chain[0], names) == Some(chain.last()),
        chain.len() == names + 1 ==> crate::registry::chain_end(replacements, chain[0], names)
            is None && crate::registry::replaced_times(replacements, chain[0], names)
            == chain.last(),
    decreases chain.len(),
{
    if chain.len() > 1 && names > 0 {
        let rest = chain.skip(1);
        assert(replacements.contains_key(chain[0]) && replacements[chain[0]] == chain[1]);
        assert(is_chain(replacements, rest)) by {
            assert forall|i: int| 0 <= i < rest.len() - 1 implies replacements.contains_key(
                #[trigger] rest[i],
            ) && replacements[rest[i]] == rest[i + 1] by {
                assert(rest[i] == chain[i + 1]);
                assert(rest[i + 1] == chain[i + 2]);
            }
        }
        lemma_chain(replacements, rest, (names - 1) as nat);
        assert(rest[0] == chain[1]);
        assert(rest.last() == chain.last());
    }
}

/// Whether a URL is one of those under which crates.io is known.
pub open spec fn is_crates_io(url: Seq<char>) -> bool {
    url == "https://github.com/rust-lang/crates.io-index"@ || url == "https://index.crates.io/"@
}

/// An index that is written with `sparse+` is asked at its URL, under the
/// registry's own name; any other is a git index and refused. crates.io is always
/// asked at its sparse index.
pub proof fn only_sparse_indices_can_be_asked(
    name: Option<Seq<char>>,
    url: Seq<char>,
    source: Seq<char>,
)
    ensures
        sparse_or_refused(name, "sparse+"@ + url, source) == Ok::<RegistryView, ErrorView>(
            if is_crates_io(url) {
                RegistryView { name: None, index: "https://index.crates.io/"@ }
            } else {
                RegistryView { name, index: with_slash(url) }
            },
        ),
        sparse_or_refused(name, "registry+"@ + url, source) == if is_crates_io(url) {
            Ok(RegistryView { name: None, index: "https://index.crates.io/"@ })
        } else {
            refused(source)
        },
        !"registry+"@.is_prefix_of(url) && !"sparse+"@.is_prefix_of(url) ==> sparse_or_refused(
            name,
            url,
            source,
        ) == if is_crates_io(url) {
            Ok(RegistryView { name: None, index: "https://index.crates.io/"@ })
        } else {
            refused(source)
        },
{
    lemma_sparse_url();
    protocols_come_off(url);
    reveal_strlit("registry+");
    reveal_strlit("sparse+");
    let registry = "registry+"@ + url;
    let sparse = "sparse+"@ + url;
    assert(sparse.subrange(0, 7) =~= "sparse+"@);
    assert("sparse+"@[0] == 's' && registry[0] == 'r');
    if "sparse+"@.is_prefix_of(registry) {
        assert("sparse+"@[0] == registry.subrange(0, 7)[0]);
    }
}

/// The refusal of a registry with a git index.
pub open spec fn refused(source: Seq<char>) -> Result<RegistryView, ErrorView> {
    Err(
        ErrorView::Registry(
            "registry '"@ + source + "' uses a git index, which cargo-pkgman cannot query"@,
        ),
    )
}

/// The name of a recorded source, by the URL behind its protocol.
pub open spec fn source_name(config: RegistriesView, url: Seq<char>) -> Seq<char> {
    if config.sources.contains_key(url) {
        config.sources[url]
    } else {
        url
    }
}

/// A source is resolved by the name of its URL, once replacements are followed.
/// crates.io is asked unless its protocol is set to `git`. A name with an index is
/// asked there. The protocol that a source was recorded with counts only where
/// nothing else is known of it.
pub proof fn sources_are_resolved_by_name(
    config: RegistriesView,
    source: Seq<char>,
    end: Seq<char>,
)
    requires
        followed(config.replacements, source_name(config, trimmed(source))) == Ok::<
            Seq<char>,
            ErrorView,
        >(end),
    ensures
        end == "crates-io"@ && config.crates_io_protocol == Some("git"@) ==> resolved(
            config,
            source,
        ) == Err::<RegistryView, ErrorView>(
            ErrorView::Registry(
                "registry 'crates-io' uses a git index, which cargo-pkgman cannot query"@,
            ),
        ),
        end == "crates-io"@ && config.crates_io_protocol != Some("git"@) ==> resolved(
            config,
            source,
        ) == Ok::<RegistryView, ErrorView>(
            RegistryView { name: None, index: "https://index.crates.io/"@ },
        ),
        end != "crates-io"@ && config.indices.contains_key(end) ==> resolved(config, source)
            == sparse_or_refused(Some(end), config.indices[end], trimmed(source)),
        end != "crates-io"@ && !config.indices.contains_key(end) ==> resolved(config, source)
            == sparse_or_refused(
            Some(end),
            if !config.sources.contains_key(trimmed(source)) && !config.replacements.contains_key(
                trimmed(source),
            ) && !"registry+"@.is_prefix_of(trimmed(source)) && !"sparse+"@.is_prefix_of(
                trimmed(source),
            ) {
                source
            } else {
                end
            },
            trimmed(source),
        ),
{
}

/// A chain of replacements that does not end makes a source an error.
pub proof fn endless_replacements_are_errors(config: RegistriesView, source: Seq<char>)
    ensures
        followed(config.replacements, source_name(config, trimmed(source))) matches Err(error)
            ==> resolved(config, source) == Err::<RegistryView, ErrorView>(error),
{
}

/// The files are read in this order: the configuration in Cargo's home, then one
/// for each directory from the root of the file system down to the current one,
/// and the credentials in Cargo's home. Of two names for a configuration the one
/// without an extension comes first, of two for the credentials the one with it.
pub proof fn files_are_read_in_order(ancestors: nat)
    ensures
        config_steps(ancestors).len() == ancestors + 2,
        config_steps(ancestors)[0] == (ConfigStepView {
            place: ConfigPlace::Home,
            names: seq!["config"@, "config.toml"@],
        }),
        config_steps(ancestors).last() == (ConfigStepView {
            place: ConfigPlace::Home,
            names: seq!["credentials.toml"@, "credentials"@],
        }),
        forall|i: int|
            0 <= i < ancestors ==> #[trigger] config_steps(ancestors)[i + 1] == (ConfigStepView {
                place: ConfigPlace::Ancestor((ancestors - 1 - i) as usize),
                names: seq!["config"@, "config.toml"@],
            }),
{
}

/// A file that is missing changes nothing, one that cannot be read or parsed is an
/// error, and any other is taken over with its place. Files are taken one after
/// another, and the environment after all of them.
pub proof fn files_are_taken_over(
    config: RegistriesView,
    place: ConfigPlace,
    text: Seq<char>,
    error: ErrorView,
    found: FoundView,
    rest: Seq<(ConfigPlace, FoundView)>,
    variables: Seq<(String, String)>,
)
    ensures
        after_file(config, place, FoundView::Missing) == Ok::<RegistriesView, ErrorView>(config),
        after_file(config, place, FoundView::Unreadable(error)) == Err::<RegistriesView, ErrorView>(
            error,
        ),
        after_file(config, place, FoundView::Text(text)) == match toml_document(text) {
            Ok(document) => Ok(after_document(config, document, Some(place))),
            Err(message) => Err(ErrorView::Config("could not parse Cargo config: "@ + message)),
        },
        after_files(config, Seq::empty()) == Ok::<RegistriesView, ErrorView>(config),
        after_files(config, seq![(place, found)] + rest) == match after_file(
            config,
            place,
            found,
        ) {
            Ok(next) => after_files(next, rest),
            Err(error) => Err(error),
        },
        loaded(rest, variables) == match after_files(unconfigured(), rest) {
            Ok(next) => Ok(after_environment(next, variables)),
            Err(error) => Err(error),
        },
{
    assert((seq![(place, found)] + rest).skip(1) =~= rest);
}

/// Variables are taken over one after another.
pub proof fn variables_are_taken_in_turn(
    config: RegistriesView,
    first: Seq<(String, String)>,
    second: Seq<(String, String)>,
    this: (String, String),
)
    ensures
        after_environment(config, first + second) == after_environment(
            after_environment(config, first),
            second,
        ),
        after_environment(config, seq![this]) == after_variable(config, this.0@, this.1@),
        after_environment(config, Seq::empty()) == config,
    decreases first.len(),
{
    let next = after_variable(config, this.0@, this.1@);
    assert(seq![this].skip(1) =~= Seq::<(String, String)>::empty());
    assert(after_environment(next, seq![this].skip(1)) == next);
    if first.len() == 0 {
        assert(first + second =~= second);
    } else {
        assert((first + second)[0] == first[0]);
        assert((first + second).skip(1) =~= first.skip(1) + second);
        variables_are_taken_in_turn(
            after_variable(config, first[0].0@, first[0].1@),
            first.skip(1),
            second,
            this,
        );
    }
}

/// The variables that stand for one setting each set it, and nothing else.
pub proof fn single_variables_set_one_thing(config: RegistriesView, value: Seq<char>)
    ensures
        after_variable(config, "CARGO_REGISTRIES_CRATES_IO_PROTOCOL"@, value) == (RegistriesView {
            crates_io_protocol: Some(value),
            ..config
        }),
        after_variable(config, "CARGO_REGISTRY_DEFAULT"@, value) == (RegistriesView {
            default_registry: Some(value),
            ..config
        }),
        after_variable(config, "CARGO_REGISTRY_TOKEN"@, value) == (RegistriesView {
            tokens: config.tokens.insert("crates-io"@, value),
            ..config
        }),
        after_variable(config, "CARGO_INSTALL_ROOT"@, value) == (RegistriesView {
            install_root: Some((None, value)),
            ..config
        }),
{
    reveal_strlit("CARGO_REGISTRIES_CRATES_IO_PROTOCOL");
    reveal_strlit("CARGO_REGISTRY_DEFAULT");
    reveal_strlit("CARGO_REGISTRY_TOKEN");
    reveal_strlit("CARGO_INSTALL_ROOT");
    assert("CARGO_REGISTRIES_CRATES_IO_PROTOCOL"@.len() == 35);
    assert("CARGO_REGISTRY_DEFAULT"@.len() == 22);
    assert("CARGO_REGISTRY_TOKEN"@.len() == 20);
    assert("CARGO_INSTALL_ROOT"@.len() == 18);
}

/// A variable with the name of a registry or source in it sets the index, the
/// token or the replacement of that name, and nothing else. An index also gives
/// its URL the name.
pub proof fn named_variables_set_one_thing(
    config: RegistriesView,
    name: Seq<char>,
    value: Seq<char>,
)
    ensures
        after_variable(config, "CARGO_REGISTRIES_"@ + name + "_INDEX"@, value) == (RegistriesView {
            indices: config.indices.insert(env_name(name), value),
            sources: config.sources.insert(trimmed(value), env_name(name)),
            ..config
        }),
        after_variable(config, "CARGO_REGISTRIES_"@ + name + "_TOKEN"@, value) == (RegistriesView {
            tokens: config.tokens.insert(env_name(name), value),
            ..config
        }),
        after_variable(config, "CARGO_SOURCE_"@ + name + "_REPLACE_WITH"@, value) == (
        RegistriesView {
            replacements: config.replacements.insert(env_name(name), value),
            ..config
        }),
        after_variable(config, "CARGO_SOURCE_"@ + name + "_REGISTRY"@, value) == (RegistriesView {
            indices: config.indices.insert(env_name(name), value),
            sources: config.sources.insert(trimmed(value), env_name(name)),
            ..config
        }),
{
    lemma_endings(name);
    lemma_registries_key(name, "_INDEX"@);
    lemma_registries_key(name, "_TOKEN"@);
    lemma_source_key(name, "_REPLACE_WITH"@);
    lemma_source_key(name, "_REGISTRY"@);
    let registries = "CARGO_REGISTRIES_"@ + name;
    let source = "CARGO_SOURCE_"@ + name;
    lemma_registries_variable(config, registries + "_INDEX"@, name + "_INDEX"@, value);
    lemma_registries_variable(config, registries + "_TOKEN"@, name + "_TOKEN"@, value);
    lemma_source_variable(config, source + "_REPLACE_WITH"@, name + "_REPLACE_WITH"@, value);
    lemma_source_variable(config, source + "_REGISTRY"@, name + "_REGISTRY"@, value);
}

proof fn lemma_registries_variable(
    config: RegistriesView,
    key: Seq<char>,
    rest: Seq<char>,
    value: Seq<char>,
)
    requires
        key != "CARGO_REGISTRIES_CRATES_IO_PROTOCOL"@,
        key != "CARGO_REGISTRY_DEFAULT"@,
        key != "CARGO_REGISTRY_TOKEN"@,
        key != "CARGO_INSTALL_ROOT"@,
        "CARGO_REGISTRIES_"@.is_prefix_of(key),
        key.skip("CARGO_REGISTRIES_"@.len() as int) == rest,
    ensures
        crate::text::without_suffix(rest, "_INDEX"@) matches Some(name) ==> after_variable(
            config,
            key,
            value,
        ) == (RegistriesView {
            indices: config.indices.insert(env_name(name), value),
            sources: config.sources.insert(trimmed(value), env_name(name)),
            ..config
        }),
        crate::text::without_suffix(rest, "_INDEX"@) is None ==> (crate::text::without_suffix(
            rest,
            "_TOKEN"@,
        ) matches Some(name) ==> after_variable(config, key, value) == (RegistriesView {
            tokens: config.tokens.insert(env_name(name), value),
            ..config
        })),
{
}

proof fn lemma_source_variable(
    config: RegistriesView,
    key: Seq<char>,
    rest: Seq<char>,
    value: Seq<char>,
)
    requires
        key != "CARGO_REGISTRIES_CRATES_IO_PROTOCOL"@,
        key != "CARGO_REGISTRY_DEFAULT"@,
        key != "CARGO_REGISTRY_TOKEN"@,
        key != "CARGO_INSTALL_ROOT"@,
        !"CARGO_REGISTRIES_"@.is_prefix_of(key),
        "CARGO_SOURCE_"@.is_prefix_of(key),
        key.skip("CARGO_SOURCE_"@.len() as int) == rest,
    ensures
        crate::text::without_suffix(rest, "_REPLACE_WITH"@) matches Some(name) ==> after_variable(
            config,
            key,
            value,
        ) == (RegistriesView {
            replacements: config.replacements.insert(env_name(name), value),
            ..config
        }),
        crate::text::without_suffix(rest, "_REPLACE_WITH"@) is None ==> (
        crate::text::without_suffix(rest, "_REGISTRY"@) matches Some(name) ==> after_variable(
            config,
            key,
            value,
        ) == (RegistriesView {
            indices: config.indices.insert(env_name(name), value),
            sources: config.sources.insert(trimmed(value), env_name(name)),
            ..config
        })),
{
}

/// The parts of a variable's name that stands for a registry.
proof fn lemma_registries_key(name: Seq<char>, ending: Seq<char>)
    requires
        ending.len() > 0,
        ending.last() == 'X' || ending.last() == 'N',
    ensures
        ({
            let key = "CARGO_REGISTRIES_"@ + name + ending;
            &&& key != "CARGO_REGISTRIES_CRATES_IO_PROTOCOL"@
            &&& key != "CARGO_REGISTRY_DEFAULT"@
            &&& key != "CARGO_REGISTRY_TOKEN"@
            &&& key != "CARGO_INSTALL_ROOT"@
            &&& "CARGO_REGISTRIES_"@.is_prefix_of(key)
            &&& key.skip("CARGO_REGISTRIES_"@.len() as int) == name + ending
        }),
{
    let key = "CARGO_REGISTRIES_"@ + name + ending;
    reveal_strlit("CARGO_REGISTRIES_CRATES_IO_PROTOCOL");
    reveal_strlit("CARGO_REGISTRY_DEFAULT");
    reveal_strlit("CARGO_REGISTRY_TOKEN");
    reveal_strlit("CARGO_INSTALL_ROOT");
    reveal_strlit("CARGO_REGISTRIES_");
    assert(key.last() == ending.last());
    assert(key[13] == 'I');
    assert("CARGO_REGISTRY_TOKEN"@[13] == 'Y');
    assert("CARGO_REGISTRIES_CRATES_IO_PROTOCOL"@.last() == 'L');
    assert("CARGO_REGISTRY_DEFAULT"@.last() == 'T');
    assert("CARGO_INSTALL_ROOT"@.last() == 'T');
    assert(key.subrange(0, 17) =~= "CARGO_REGISTRIES_"@);
    assert(key.skip(17) =~= name + ending);
}

/// The parts of a variable's name that stands for a source.
proof fn lemma_source_key(name: Seq<char>, ending: Seq<char>)
    ensures
        ({
            let key = "CARGO_SOURCE_"@ + name + ending;
            &&& key != "CARGO_REGISTRIES_CRATES_IO_PROTOCOL"@
            &&& key != "CARGO_REGISTRY_DEFAULT"@
            &&& key != "CARGO_REGISTRY_TOKEN"@
            &&& key != "CARGO_INSTALL_ROOT"@
            &&& !"CARGO_REGISTRIES_"@.is_prefix_of(key)
            &&& "CARGO_SOURCE_"@.is_prefix_of(key)
            &&& key.skip("CARGO_SOURCE_"@.len() as int) == name + ending
        }),
{
    let key = "CARGO_SOURCE_"@ + name + ending;
    reveal_strlit("CARGO_REGISTRIES_CRATES_IO_PROTOCOL");
    reveal_strlit("CARGO_REGISTRY_DEFAULT");
    reveal_strlit("CARGO_REGISTRY_TOKEN");
    reveal_strlit("CARGO_INSTALL_ROOT");
    reveal_strlit("CARGO_REGISTRIES_");
    reveal_strlit("CARGO_SOURCE_");
    assert(key[6] == 'S');
    assert("CARGO_REGISTRIES_CRATES_IO_PROTOCOL"@[6] == 'R');
    assert("CARGO_REGISTRY_DEFAULT"@[6] == 'R');
    assert("CARGO_REGISTRY_TOKEN"@[6] == 'R');
    assert("CARGO_INSTALL_ROOT"@[6] == 'I');
    assert("CARGO_REGISTRIES_"@[6] == 'R');
    if "CARGO_REGISTRIES_"@.is_prefix_of(key) {
        assert("CARGO_REGISTRIES_"@[6] == key.subrange(0, 17)[6]);
    }
    assert(key.subrange(0, 13) =~= "CARGO_SOURCE_"@);
    assert(key.skip(13) =~= name + ending);
}

/// The endings of variable names can be told apart, and leave the name.
proof fn lemma_endings(name: Seq<char>)
    ensures
        "_INDEX"@.len() > 0 && "_INDEX"@.last() == 'X',
        "_TOKEN"@.len() > 0 && "_TOKEN"@.last() == 'N',
        crate::text::without_suffix(name + "_INDEX"@, "_INDEX"@) == Some(name),
        crate::text::without_suffix(name + "_TOKEN"@, "_INDEX"@) is None,
        crate::text::without_suffix(name + "_TOKEN"@, "_TOKEN"@) == Some(name),
        crate::text::without_suffix(name + "_REPLACE_WITH"@, "_REPLACE_WITH"@) == Some(name),
        crate::text::without_suffix(name + "_REGISTRY"@, "_REPLACE_WITH"@) is None,
        crate::text::without_suffix(name + "_REGISTRY"@, "_REGISTRY"@) == Some(name),
{
    reveal_strlit("_INDEX");
    reveal_strlit("_TOKEN");
    reveal_strlit("_REPLACE_WITH");
    reveal_strlit("_REGISTRY");
    crate::laws::texts::suffix_comes_off_and_on(name + "_INDEX"@, "_INDEX"@, name);
    crate::laws::texts::suffix_comes_off_and_on(name + "_TOKEN"@, "_TOKEN"@, name);
    crate::laws::texts::suffix_comes_off_and_on(name + "_REPLACE_WITH"@, "_REPLACE_WITH"@, name);
    crate::laws::texts::suffix_comes_off_and_on(name + "_REGISTRY"@, "_REGISTRY"@, name);
    let token = name + "_TOKEN"@;
    if "_INDEX"@.is_suffix_of(token) {
        assert("_INDEX"@[5] == token.subrange(token.len() - 6, token.len() as int)[5]);
    }
    let registry = name + "_REGISTRY"@;
    if "_REPLACE_WITH"@.is_suffix_of(registry) {
        assert("_REPLACE_WITH"@[12] == registry.subrange(
            registry.len() - 13,
            registry.len() as int,
        )[12]);
    }
}

/// Variables of other names set nothing.
pub proof fn other_variables_set_nothing(
    config: RegistriesView,
    key: Seq<char>,
    value: Seq<char>,
)
    requires
        key != "CARGO_REGISTRY_DEFAULT"@,
        key != "CARGO_REGISTRY_TOKEN"@,
        key != "CARGO_INSTALL_ROOT"@,
        !"CARGO_REGISTRIES_"@.is_prefix_of(key),
        !"CARGO_SOURCE_"@.is_prefix_of(key),
    ensures
        after_variable(config, key, value) == config,
{
    reveal_strlit("CARGO_REGISTRIES_CRATES_IO_PROTOCOL");
    reveal_strlit("CARGO_REGISTRIES_");
    assert("CARGO_REGISTRIES_CRATES_IO_PROTOCOL"@.subrange(0, 17) =~= "CARGO_REGISTRIES_"@);
}

/// In a variable's name each underscore stands for a dash and each capital for its
/// small letter; every other character stands for itself.
pub proof fn underscores_stand_for_dashes(key: Seq<char>, i: int)
    requires
        0 <= i < key.len(),
    ensures
        env_name(key).len() == key.len(),
        key[i] == '_' ==> env_name(key)[i] == '-',
        'A' <= key[i] <= 'Z' ==> env_name(key)[i] as u32 == key[i] as u32 + 32,
        key[i] != '_' && !('A' <= key[i] <= 'Z') ==> env_name(key)[i] == key[i],
{
}

/// The install root is Cargo's home; a path from the environment is taken from
/// there, and one from a file from the directory of the file.
pub proof fn roots_are_taken_from_their_places(
    config: RegistriesView,
    base: ConfigPlace,
    path: Seq<char>,
)
    ensures
        ({
            let home = RootStepView::Place(ConfigPlace::Home);
            &&& root_steps(RegistriesView { install_root: None, ..config }) == seq![home]
            &&& root_steps(RegistriesView { install_root: Some((None, path)), ..config }) == seq![
                home,
                RootStepView::Path(path),
            ]
            &&& root_steps(RegistriesView { install_root: Some((Some(base), path)), ..config })
                == seq![home, RootStepView::Place(base), RootStepView::Path(path)]
        }),
{
    let home = RootStepView::Place(ConfigPlace::Home);
    assert(root_steps(RegistriesView { install_root: Some((None, path)), ..config }) =~= seq![
        home,
        RootStepView::Path(path),
    ]);
    assert(root_steps(RegistriesView { install_root: Some((Some(base), path)), ..config })
        =~= seq![home, RootStepView::Place(base), RootStepView::Path(path)]);
}

} // verus!
