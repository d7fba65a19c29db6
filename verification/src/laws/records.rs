//! Laws of the install records: what each part of a record is for, and how an
//! install is replayed from it.

use vstd::prelude::*;

use crate::config::FoundView;
use crate::error::ErrorView;
use crate::node::{
    bool_of, entries_of, entry, json_document, member, text_of, toml_document, Node,
};
use crate::packages::{
    classified, keyed_package, keyed_packages, no_options, overlaid, overlaid_by, raw_source,
    recorded, recorded_options, replay_args, source_tag, strings_in, InstallOptionsView,
    InstalledPackageView, PackageSourceView,
};
use crate::text::{joined, split_at_last, without_suffix};
use crate::version::semver_parsed;

verus! {

/// The first entry with a key counts, and there is none exactly where no entry
/// has the key.
pub proof fn first_entry_counts(
    before: Seq<(String, Node)>,
    this: (String, Node),
    after: Seq<(String, Node)>,
    key: Seq<char>,
)
    requires
        forall|i: int| 0 <= i < before.len() ==> (#[trigger] before[i]).0@ != key,
    ensures
        entry(before, key) is None,
        this.0@ == key ==> entry(before + seq![this] + after, key) == Some(this.1),
    decreases before.len(),
{
    let all = before + seq![this] + after;
    if before.len() == 0 {
        assert(all[0] == this);
    } else {
        assert(all[0] == before[0]);
        assert(all.skip(1) =~= before.skip(1) + seq![this] + after);
        assert forall|i: int| 0 <= i < before.skip(1).len() implies (
        #[trigger] before.skip(1)[i]).0@ != key by {
            assert(before.skip(1)[i] == before[i + 1]);
        }
        first_entry_counts(before.skip(1), this, after, key);
    }
}

/// Only tables have members, only strings a text, only truth values a truth
/// value, and only tables entries.
pub proof fn values_are_of_their_kind(node: Node, key: Seq<char>)
    ensures
        match node {
            Node::Table(entries) => member(node, key) == entry(entries@, key) && entries_of(
                Some(node),
            ) == entries@ && text_of(Some(node)) is None && bool_of(Some(node)) is None,
            Node::Text(text) => member(node, key) is None && text_of(Some(node)) == Some(text@)
                && bool_of(Some(node)) is None && entries_of(Some(node)).len() == 0,
            Node::Bool(value) => member(node, key) is None && bool_of(Some(node)) == Some(value)
                && text_of(Some(node)) is None && entries_of(Some(node)).len() == 0,
            _ => member(node, key) is None && text_of(Some(node)) is None && bool_of(
                Some(node),
            ) is None && entries_of(Some(node)).len() == 0,
        },
        text_of(None) is None,
        bool_of(None) is None,
        entries_of(None).len() == 0,
{
}

/// The strings of a list are its items that are strings, each with its own text,
/// in their order; a list of nothing but strings is kept whole.
pub proof fn strings_are_kept_in_order(items: Seq<Node>)
    ensures
        strings_in(items) == items.filter(|item: Node| item is Text).map_values(
            |item: Node| item->Text_0@,
        ),
        (forall|i: int| 0 <= i < items.len() ==> #[trigger] items[i] is Text) ==> {
            &&& strings_in(items).len() == items.len()
            &&& forall|i: int|
                0 <= i < items.len() ==> #[trigger] strings_in(items)[i] == items[i]->Text_0@
        },
    decreases items.len(),
{
    reveal(Seq::filter);
    let is_text = |item: Node| item is Text;
    let text = |item: Node| item->Text_0@;
    if items.len() == 0 {
        assert(items.filter(is_text).map_values(text) =~= Seq::<Seq<char>>::empty());
    } else {
        let before = items.drop_last();
        strings_are_kept_in_order(before);
        let kept = before.filter(is_text);
        assert(kept.push(items.last()).map_values(text) =~= kept.map_values(text).push(
            text(items.last()),
        ));
        if forall|i: int| 0 <= i < items.len() ==> #[trigger] items[i] is Text {
            assert forall|i: int| 0 <= i < before.len() implies #[trigger] before[i] is Text by {
                assert(items[i] is Text);
            }
            assert(items[items.len() - 1] is Text);
            assert forall|i: int| 0 <= i < items.len() implies #[trigger] strings_in(items)[i]
                == items[i]->Text_0@ by {
                if i < before.len() {
                    assert(strings_in(before)[i] == before[i]->Text_0@);
                }
            }
        }
    }
}

/// The strings of two lists, one behind the other, are those of the first and
/// then those of the second; a string alone is itself, anything else is left out.
pub proof fn strings_of_both_lists(first: Seq<Node>, second: Seq<Node>, item: Node)
    ensures
        strings_in(first + second) == strings_in(first) + strings_in(second),
        strings_in(seq![item]) == match item {
            Node::Text(text) => seq![text@],
            _ => Seq::empty(),
        },
    decreases second.len(),
{
    assert(seq![item].drop_last() =~= Seq::<Node>::empty());
    assert(strings_in(seq![item].drop_last()).len() == 0);
    if second.len() == 0 {
        assert(first + second =~= first);
        assert(strings_in(first) + strings_in(second) =~= strings_in(first));
    } else {
        strings_of_both_lists(first, second.drop_last(), item);
        assert((first + second).drop_last() =~= first + second.drop_last());
        assert((first + second).last() == second.last());
        if let Node::Text(text) = second.last() {
            assert(strings_in(first + second) =~= strings_in(first) + strings_in(second));
        }
    }
}

/// The recorded flags are those of the members with their names: the features
/// and binaries are the strings of their lists, in order and none left out; a
/// flag is set where its member is true; the profile, the target and the version
/// requirement are texts, and an empty target is none.
pub proof fn options_are_those_recorded(record: Node)
    ensures
        ({
            let options = recorded_options(record);
            &&& match member(record, "features"@) {
                Some(Node::List(items)) => options.features == items@.filter(
                    |item: Node| item is Text,
                ).map_values(|item: Node| item->Text_0@),
                _ => options.features.len() == 0,
            }
            &&& match member(record, "bins"@) {
                Some(Node::List(items)) => options.bins == items@.filter(
                    |item: Node| item is Text,
                ).map_values(|item: Node| item->Text_0@),
                _ => options.bins.len() == 0,
            }
            &&& options.all_features == (member(record, "all_features"@) == Some(Node::Bool(true)))
            &&& options.no_default_features == (member(record, "no_default_features"@) == Some(
                Node::Bool(true),
            ))
            &&& match member(record, "profile"@) {
                Some(Node::Text(text)) => options.profile == Some(text@),
                _ => options.profile is None,
            }
            &&& match member(record, "target"@) {
                Some(Node::Text(text)) => if text@.len() > 0 {
                    options.target == Some(text@)
                } else {
                    options.target is None
                },
                _ => options.target is None,
            }
            &&& match member(record, "version_req"@) {
                Some(Node::Text(text)) => options.version_req == Some(text@),
                _ => options.version_req is None,
            }
        }),
{
    if let Some(Node::List(items)) = member(record, "features"@) {
        strings_are_kept_in_order(items@);
    }
    if let Some(Node::List(items)) = member(record, "bins"@) {
        strings_are_kept_in_order(items@);
    }
}

/// A record whose features, or binaries, are a list of nothing but strings holds
/// exactly these strings, one by one and in order.
pub proof fn lists_of_strings_are_recorded_whole(record: Node, items: Vec<Node>)
    requires
        forall|i: int| 0 <= i < items@.len() ==> #[trigger] items@[i] is Text,
    ensures
        member(record, "features"@) == Some(Node::List(items)) ==> {
            &&& recorded_options(record).features.len() == items@.len()
            &&& forall|i: int|
                0 <= i < items@.len() ==> #[trigger] recorded_options(record).features[i]
                    == items@[i]->Text_0@
        },
        member(record, "bins"@) == Some(Node::List(items)) ==> {
            &&& recorded_options(record).bins.len() == items@.len()
            &&& forall|i: int|
                0 <= i < items@.len() ==> #[trigger] recorded_options(record).bins[i]
                    == items@[i]->Text_0@
        },
{
    strings_are_kept_in_order(items@);
    if member(record, "features"@) == Some(Node::List(items)) {
        assert(recorded_options(record).features == strings_in(items@));
        assert forall|i: int| 0 <= i < items@.len() implies #[trigger] recorded_options(
            record,
        ).features[i] == items@[i]->Text_0@ by {
            assert(strings_in(items@)[i] == items@[i]->Text_0@);
        }
    }
    if member(record, "bins"@) == Some(Node::List(items)) {
        assert(recorded_options(record).bins == strings_in(items@));
        assert forall|i: int| 0 <= i < items@.len() implies #[trigger] recorded_options(
            record,
        ).bins[i] == items@[i]->Text_0@ by {
            assert(strings_in(items@)[i] == items@[i]->Text_0@);
        }
    }
}

/// Each recorded flag adds its own arguments to those of the flags before it: the
/// default features that were left out, all features, the features with a comma
/// between them, each binary, the profile and the target. Nothing recorded adds
/// nothing, and neither does the version requirement.
pub proof fn flags_add_their_arguments(options: InstallOptionsView, bin: Seq<char>, text: Seq<char>)
    ensures
        ({
            let bare = InstallOptionsView {
                features: Seq::empty(),
                all_features: false,
                no_default_features: false,
                bins: Seq::empty(),
                profile: None,
                target: None,
                version_req: None,
            };
            let first = InstallOptionsView {
                no_default_features: options.no_default_features,
                ..bare
            };
            let second = InstallOptionsView { all_features: options.all_features, ..first };
            let third = InstallOptionsView { features: options.features, ..second };
            let fourth = InstallOptionsView { bins: options.bins, ..third };
            let fifth = InstallOptionsView { profile: options.profile, ..fourth };
            let sixth = InstallOptionsView { target: options.target, ..fifth };
            &&& replay_args(bare) == Seq::<Seq<char>>::empty()
            &&& replay_args(first) == if options.no_default_features {
                seq!["--no-default-features"@]
            } else {
                Seq::empty()
            }
            &&& replay_args(second) == replay_args(first) + if options.all_features {
                seq!["--all-features"@]
            } else {
                Seq::empty()
            }
            &&& replay_args(third) == replay_args(second) + if options.features.len() > 0 {
                seq!["--features"@, joined(options.features, ","@)]
            } else {
                Seq::empty()
            }
            &&& replay_args(InstallOptionsView { bins: options.bins.push(bin), ..third })
                == replay_args(fourth) + seq!["--bin"@, bin]
            &&& options.bins.len() == 0 ==> replay_args(fourth) == replay_args(third)
            &&& replay_args(fifth) == replay_args(fourth) + match options.profile {
                None => Seq::empty(),
                Some(profile) => if profile == "release"@ {
                    Seq::empty()
                } else if profile == "dev"@ || profile == "debug"@ {
                    seq!["--debug"@]
                } else {
                    seq!["--profile"@, profile]
                },
            }
            &&& replay_args(sixth) == replay_args(fifth) + match options.target {
                None => Seq::empty(),
                Some(target) => seq!["--target"@, target],
            }
            &&& replay_args(options) == replay_args(sixth)
        }),
{
    let bare = no_options();
    let first = InstallOptionsView { no_default_features: options.no_default_features, ..bare };
    let second = InstallOptionsView { all_features: options.all_features, ..first };
    let third = InstallOptionsView { features: options.features, ..second };
    let fourth = InstallOptionsView { bins: options.bins, ..third };
    let fifth = InstallOptionsView { profile: options.profile, ..fourth };
    let sixth = InstallOptionsView { target: options.target, ..fifth };
    let more = options.bins.push(bin);
    assert(more.drop_last() =~= options.bins);
    assert(more.last() == bin);
    assert(replay_args(InstallOptionsView { bins: more, ..third }) =~= replay_args(fourth) + seq![
        "--bin"@,
        bin,
    ]);
    if options.bins.len() == 0 {
        assert(options.bins =~= Seq::<Seq<char>>::empty());
    }
}

/// Installs without flags have none.
pub proof fn no_options_are_none()
    ensures
        no_options().features.len() == 0,
        !no_options().all_features,
        !no_options().no_default_features,
        no_options().bins.len() == 0,
        no_options().profile is None,
        no_options().target is None,
        no_options().version_req is None,
{
}

/// A source is told by what stands in front of it, and keeps its text. The kinds
/// that are not of a registry have a tag each.
pub proof fn sources_are_told_by_their_start(rest: Seq<char>)
    ensures
        classified("registry+"@ + rest) == (PackageSourceView::Registry {
            raw: "registry+"@ + rest,
        }),
        classified("sparse+"@ + rest) == (PackageSourceView::Registry { raw: "sparse+"@ + rest }),
        classified("git+"@ + rest) == (PackageSourceView::Git { raw: "git+"@ + rest }),
        classified("path+"@ + rest) == (PackageSourceView::Path { raw: "path+"@ + rest }),
        raw_source(classified(rest)) == rest,
        source_tag(PackageSourceView::Registry { raw: rest }) is None,
        source_tag(PackageSourceView::Git { raw: rest }) == Some("git"@),
        source_tag(PackageSourceView::Path { raw: rest }) == Some("path"@),
        source_tag(PackageSourceView::Other { raw: rest }) == Some("other"@),
        classified(rest) is Registry ==> exists|tail: Seq<char>|
            rest == "registry+"@ + tail || rest == "sparse+"@ + tail,
        classified(rest) is Git ==> exists|tail: Seq<char>| rest == "git+"@ + tail,
        classified(rest) is Path ==> exists|tail: Seq<char>| rest == "path+"@ + tail,
{
    reveal_strlit("registry+");
    reveal_strlit("sparse+");
    reveal_strlit("git+");
    reveal_strlit("path+");
    let registry = "registry+"@ + rest;
    let sparse = "sparse+"@ + rest;
    let git = "git+"@ + rest;
    let path = "path+"@ + rest;
    assert(registry.subrange(0, 9) =~= "registry+"@);
    assert(sparse.subrange(0, 7) =~= "sparse+"@);
    assert(git.subrange(0, 4) =~= "git+"@);
    assert(path.subrange(0, 5) =~= "path+"@);
    assert(git[0] == 'g' && path[0] == 'p');
    assert("registry+"@[0] == 'r' && "sparse+"@[0] == 's' && "git+"@[0] == 'g');
    assert(!"registry+"@.is_prefix_of(git)) by {
        if "registry+"@.is_prefix_of(git) {
            assert("registry+"@[0] == git.subrange(0, 9)[0]);
        }
    }
    assert(!"sparse+"@.is_prefix_of(git)) by {
        if "sparse+"@.is_prefix_of(git) {
            assert("sparse+"@[0] == git.subrange(0, 7)[0]);
        }
    }
    assert(!"registry+"@.is_prefix_of(path)) by {
        if "registry+"@.is_prefix_of(path) {
            assert("registry+"@[0] == path.subrange(0, 9)[0]);
        }
    }
    assert(!"sparse+"@.is_prefix_of(path)) by {
        if "sparse+"@.is_prefix_of(path) {
            assert("sparse+"@[0] == path.subrange(0, 7)[0]);
        }
    }
    assert(!"git+"@.is_prefix_of(path)) by {
        if "git+"@.is_prefix_of(path) {
            assert("git+"@[0] == path.subrange(0, 4)[0]);
        }
    }
    if "registry+"@.is_prefix_of(rest) {
        assert(rest =~= "registry+"@ + rest.skip(9));
    }
    if "sparse+"@.is_prefix_of(rest) {
        assert(rest =~= "sparse+"@ + rest.skip(7));
    }
    if "git+"@.is_prefix_of(rest) {
        assert(rest =~= "git+"@ + rest.skip(4));
    }
    if "path+"@.is_prefix_of(rest) {
        assert(rest =~= "path+"@ + rest.skip(5));
    }
}

/// A key that stands for a package is the package's name, a space, its version, a
/// space and its source in brackets. The package has no flags yet.
pub proof fn key_is_name_version_and_source(key: Seq<char>)
    ensures
        keyed_package(key) matches Some(package) ==> {
            &&& exists|version: Seq<char>|
                semver_parsed(version) == Some(package.version) && key == package.name + " "@
                    + version + " ("@ + raw_source(package.source) + ")"@
            &&& package.source == classified(raw_source(package.source))
            &&& package.install.features.len() == 0
            &&& package.install.bins.len() == 0
            &&& !package.install.all_features
            &&& !package.install.no_default_features
            &&& package.install.profile is None
            &&& package.install.target is None
            &&& package.install.version_req is None
        },
{
    if let Some(package) = keyed_package(key) {
        let (head, tail) = split_at_last(key, " ("@)->0;
        let source = without_suffix(tail, ")"@)->0;
        let (name, version) = split_at_last(head, " "@)->0;
        crate::laws::texts::split_is_at_the_last_place(key, " ("@);
        crate::laws::texts::split_is_at_the_last_place(head, " "@);
        crate::laws::texts::suffix_comes_off_and_on(tail, ")"@, source);
        sources_are_told_by_their_start(source);
        assert(key =~= package.name + " "@ + version + " ("@ + raw_source(package.source) + ")"@);
    }
}

/// The packages of two tables, one behind the other, are those of the first and
/// then those of the second; a key alone stands for its package, if it is one.
pub proof fn keys_give_their_packages(
    first: Seq<(String, Node)>,
    second: Seq<(String, Node)>,
    this: (String, Node),
)
    ensures
        keyed_packages(first + second) == keyed_packages(first) + keyed_packages(second),
        keyed_packages(seq![this]) == match keyed_package(this.0@) {
            Some(package) => seq![package],
            None => Seq::empty(),
        },
    decreases second.len(),
{
    assert(seq![this].drop_last() =~= Seq::<(String, Node)>::empty());
    assert(keyed_packages(seq![this].drop_last()).len() == 0);
    if second.len() == 0 {
        assert(first + second =~= first);
        assert(keyed_packages(first) + keyed_packages(second) =~= keyed_packages(first));
    } else {
        keys_give_their_packages(first, second.drop_last(), this);
        assert((first + second).drop_last() =~= first + second.drop_last());
        assert((first + second).last() == second.last());
        assert(keyed_packages(first + second) =~= keyed_packages(first) + keyed_packages(second));
    }
}

/// A record changes the flags of the first package with its name, version and
/// source, and nothing else. Where there is no such package it is added behind the
/// others, with the recorded flags.
pub proof fn record_reaches_its_install(
    packages: Seq<InstalledPackageView>,
    key: Seq<char>,
    record: Node,
)
    ensures
        match keyed_package(key) {
            None => overlaid_by(packages, key, record) == packages,
            Some(package) => {
                let after = overlaid_by(packages, key, record);
                let install = recorded_options(record);
                let known = exists|i: int|
                    0 <= i < packages.len() && is_install(#[trigger] packages[i], package);
                &&& !known ==> after == packages.push(
                    InstalledPackageView {
                        name: package.name,
                        version: package.version,
                        source: package.source,
                        install,
                    },
                )
                &&& known ==> {
                    &&& after.len() == packages.len()
                    &&& exists|i: int|
                        {
                            &&& 0 <= i < packages.len()
                            &&& is_install(#[trigger] packages[i], package)
                            &&& forall|j: int|
                                0 <= j < i ==> !is_install(#[trigger] packages[j], package)
                            &&& after[i].install == install
                            &&& after[i].name == packages[i].name
                            &&& after[i].version == packages[i].version
                            &&& after[i].source == packages[i].source
                            &&& forall|j: int|
                                0 <= j < packages.len() && j != i ==> #[trigger] after[j]
                                    == packages[j]
                        }
                }
            },
        },
{
    if let Some(package) = keyed_package(key) {
        crate::packages::lemma_first_same_found(packages, package);
        assert forall|i: int| 0 <= i < packages.len() implies is_install(
            #[trigger] packages[i],
            package,
        ) == crate::packages::same_install(packages[i], package) by {}
    }
}

/// Whether two packages have the same name, version and source text.
pub open spec fn is_install(left: InstalledPackageView, right: InstalledPackageView) -> bool {
    left.name == right.name && left.version == right.version && source_text(left.source)
        == source_text(right.source)
}

/// The text of a source of any kind.
pub open spec fn source_text(source: PackageSourceView) -> Seq<char> {
    match source {
        PackageSourceView::Registry { raw } => raw,
        PackageSourceView::Git { raw } => raw,
        PackageSourceView::Path { raw } => raw,
        PackageSourceView::Other { raw } => raw,
    }
}

/// Records are taken one after another.
pub proof fn records_are_taken_in_turn(
    packages: Seq<InstalledPackageView>,
    first: Seq<(String, Node)>,
    second: Seq<(String, Node)>,
    this: (String, Node),
)
    ensures
        overlaid(packages, first + second) == overlaid(overlaid(packages, first), second),
        overlaid(packages, seq![this]) == overlaid_by(packages, this.0@, this.1),
        overlaid(packages, Seq::empty()) == packages,
    decreases second.len(),
{
    assert(seq![this].drop_last() =~= Seq::<(String, Node)>::empty());
    assert(overlaid(packages, seq![this].drop_last()) == packages);
    if second.len() == 0 {
        assert(first + second =~= first);
    } else {
        records_are_taken_in_turn(packages, first, second.drop_last(), this);
        assert((first + second).drop_last() =~= first + second.drop_last());
        assert((first + second).last() == second.last());
    }
}

/// The packages are the keys under `v1` in the first file, with the flags under
/// `installs` in the second; a file that is missing says nothing, and one that
/// cannot be read or parsed is an error that names it.
pub proof fn both_record_files_are_read(crates_toml: FoundView, crates2: FoundView)
    ensures
        ({
            let listed = match crates_toml {
                FoundView::Missing => Ok::<Seq<InstalledPackageView>, ErrorView>(Seq::empty()),
                FoundView::Unreadable(error) => Err(error),
                FoundView::Text(text) => match toml_document(text) {
                    Err(message) => Err(
                        ErrorView::Config("could not parse .crates.toml: "@ + message),
                    ),
                    Ok(document) => Ok(
                        keyed_packages(
                            match member(document, "v1"@) {
                                Some(Node::Table(entries)) => entries@,
                                _ => Seq::empty(),
                            },
                        ),
                    ),
                },
            };
            &&& listed is Err ==> recorded(crates_toml, crates2) == listed
            &&& listed matches Ok(packages) ==> recorded(crates_toml, crates2) == match crates2 {
                FoundView::Missing => listed,
                FoundView::Unreadable(error) => Err(error),
                FoundView::Text(text) => match json_document(text) {
                    Err(message) => Err(
                        ErrorView::Config("could not parse .crates2.json: "@ + message),
                    ),
                    Ok(document) => Ok(
                        overlaid(
                            packages,
                            match member(document, "installs"@) {
                                Some(Node::Table(entries)) => entries@,
                                _ => Seq::empty(),
                            },
                        ),
                    ),
                },
            }
        }),
{
}

} // verus!
