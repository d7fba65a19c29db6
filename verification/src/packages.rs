//! Installed-package records.
//!
//! Install metadata is read from Cargo's `.crates.toml` (name, version, source)
//! and overlaid with `.crates2.json` (features, bins, profile, target) so an
//! upgrade can replay the original `cargo install` flags.

use vstd::prelude::*;

use crate::config::{Found, FoundView};
use crate::error::{opt_view, Error, ErrorView};
use crate::node::{
    bool_of, entries_of, json_document, member, parse_json, parse_toml, text_of, toml_document,
    Node,
};
use crate::order::{sort_by_name, stably_sorted, views, Named};
use crate::text::{
    concat2, join, joined, last_occurrence, occurs_at, opt_str, opt_text, rsplit_once, same, split_at_last,
    starts_with, strip_suffix, texts, without_suffix,
};
use crate::version::{semver_parsed, Version, VersionView};

verus! {

/// How a crate was installed, parsed from a `.crates.toml` key.
#[derive(Debug, Clone, PartialEq, Eq)]
pub enum PackageSource {
    /// `registry+` or `sparse+` (can be queried for updates).
    Registry {
        /// The raw source URL including protocol prefix.
        raw: String,
    },
    /// `git+` — listed, but not queried.
    Git {
        /// The raw source specifier.
        raw: String,
    },
    /// `path+` — listed, but not queried.
    Path {
        /// The raw source specifier.
        raw: String,
    },
    /// Anything else Cargo recorded.
    Other {
        /// The raw source specifier.
        raw: String,
    },
}

/// The value of a [`PackageSource`].
pub enum PackageSourceView {
    /// See [`PackageSource::Registry`].
    Registry { raw: Seq<char> },
    /// See [`PackageSource::Git`].
    Git { raw: Seq<char> },
    /// See [`PackageSource::Path`].
    Path { raw: Seq<char> },
    /// See [`PackageSource::Other`].
    Other { raw: Seq<char> },
}

impl View for PackageSource {
    type V = PackageSourceView;

    open spec fn view(&self) -> PackageSourceView {
        match *self {
            PackageSource::Registry { raw } => PackageSourceView::Registry { raw: raw@ },
            PackageSource::Git { raw } => PackageSourceView::Git { raw: raw@ },
            PackageSource::Path { raw } => PackageSourceView::Path { raw: raw@ },
            PackageSource::Other { raw } => PackageSourceView::Other { raw: raw@ },
        }
    }
}

/// The raw source string.
pub open spec fn raw_source(source: PackageSourceView) -> Seq<char> {
    match source {
        PackageSourceView::Registry { raw } => raw,
        PackageSourceView::Git { raw } => raw,
        PackageSourceView::Path { raw } => raw,
        PackageSourceView::Other { raw } => raw,
    }
}

/// The tag of a source in a listing.
pub open spec fn source_tag(source: PackageSourceView) -> Option<Seq<char>> {
    match source {
        PackageSourceView::Registry { .. } => None,
        PackageSourceView::Git { .. } => Some("git"@),
        PackageSourceView::Path { .. } => Some("path"@),
        PackageSourceView::Other { .. } => Some("other"@),
    }
}

impl PackageSource {
    /// True when this source has a registry index we might query.
    pub fn is_registry(&self) -> (r: bool)
        ensures
            r == (self@ is Registry),
    {
        match self {
            PackageSource::Registry { .. } => true,
            _ => false,
        }
    }

    /// The raw source string as Cargo stored it.
    pub fn raw(&self) -> (r: &str)
        ensures
            r@ == raw_source(self@),
    {
        match self {
            PackageSource::Registry { raw } => raw.as_str(),
            PackageSource::Git { raw } => raw.as_str(),
            PackageSource::Path { raw } => raw.as_str(),
            PackageSource::Other { raw } => raw.as_str(),
        }
    }

    /// Short tag for `list` output, or `None` for a registry package.
    pub fn list_tag(&self) -> (r: Option<&'static str>)
        ensures
            opt_str(r) == source_tag(self@),
    {
        match self {
            PackageSource::Registry { .. } => None,
            PackageSource::Git { .. } => Some("git"),
            PackageSource::Path { .. } => Some("path"),
            PackageSource::Other { .. } => Some("other"),
        }
    }
}

/// Feature/bin flags recorded in `.crates2.json` for a single install.
#[derive(Debug, Clone, PartialEq, Eq)]
pub struct InstallOptions {
    /// Features passed to `--features`.
    pub features: Vec<String>,
    /// Whether `--all-features` was used.
    pub all_features: bool,
    /// Whether `--no-default-features` was used.
    pub no_default_features: bool,
    /// Binary names passed to `--bin`. Empty means install every binary.
    pub bins: Vec<String>,
    /// Cargo profile (`release`, `dev`, …).
    pub profile: Option<String>,
    /// `--target` triple, if any.
    pub target: Option<String>,
    /// Original version requirement, if any.
    pub version_req: Option<String>,
}

/// The value of [`InstallOptions`].
#[verifier::ext_equal]
pub struct InstallOptionsView {
    /// See [`InstallOptions::features`].
    pub features: Seq<Seq<char>>,
    /// See [`InstallOptions::all_features`].
    pub all_features: bool,
    /// See [`InstallOptions::no_default_features`].
    pub no_default_features: bool,
    /// See [`InstallOptions::bins`].
    pub bins: Seq<Seq<char>>,
    /// See [`InstallOptions::profile`].
    pub profile: Option<Seq<char>>,
    /// See [`InstallOptions::target`].
    pub target: Option<Seq<char>>,
    /// See [`InstallOptions::version_req`].
    pub version_req: Option<Seq<char>>,
}

impl View for InstallOptions {
    type V = InstallOptionsView;

    open spec fn view(&self) -> InstallOptionsView {
        InstallOptionsView {
            features: texts(self.features@),
            all_features: self.all_features,
            no_default_features: self.no_default_features,
            bins: texts(self.bins@),
            profile: opt_text(self.profile),
            target: opt_text(self.target),
            version_req: opt_text(self.version_req),
        }
    }
}

/// An install without any flags.
pub open spec fn no_options() -> InstallOptionsView {
    InstallOptionsView {
        features: Seq::empty(),
        all_features: false,
        no_default_features: false,
        bins: Seq::empty(),
        profile: None,
        target: None,
        version_req: None,
    }
}

impl Default for InstallOptions {
    fn default() -> (r: Self)
        ensures
            r@ == no_options(),
    {
        let r = InstallOptions {
            features: Vec::new(),
            all_features: false,
            no_default_features: false,
            bins: Vec::new(),
            profile: None,
            target: None,
            version_req: None,
        };
        assert(r@ =~= no_options());
        r
    }
}

/// `--bin` with each name.
pub open spec fn bin_args(bins: Seq<Seq<char>>) -> Seq<Seq<char>>
    decreases bins.len(),
{
    if bins.len() == 0 {
        Seq::empty()
    } else {
        bin_args(bins.drop_last()).push("--bin"@).push(bins.last())
    }
}

/// The flags that select a profile: `release` is the default.
pub open spec fn profile_args(profile: Option<Seq<char>>) -> Seq<Seq<char>> {
    match profile {
        None => Seq::empty(),
        Some(profile) => if profile == "release"@ {
            Seq::empty()
        } else if profile == "dev"@ || profile == "debug"@ {
            seq!["--debug"@]
        } else {
            seq!["--profile"@, profile]
        },
    }
}

/// Some arguments where a condition holds, none where it does not.
pub open spec fn only_if(condition: bool, args: Seq<Seq<char>>) -> Seq<Seq<char>> {
    if condition {
        args
    } else {
        Seq::empty()
    }
}

/// The `cargo install` arguments that reproduce an install.
pub open spec fn replay_args(options: InstallOptionsView) -> Seq<Seq<char>> {
    only_if(options.no_default_features, seq!["--no-default-features"@]) + only_if(
        options.all_features,
        seq!["--all-features"@],
    ) + only_if(
        options.features.len() > 0,
        seq!["--features"@, joined(options.features, ","@)],
    ) + bin_args(options.bins) + profile_args(options.profile) + (match options.target {
        Some(target) => seq!["--target"@, target],
        None => Seq::empty(),
    })
}

/// Adds an argument.
pub(crate) fn push_arg(args: &mut Vec<String>, arg: &str)
    ensures
        texts(final(args)@) == texts(old(args)@).push(arg@),
{
    args.push(arg.to_string());
    assert(texts(args@) =~= texts(old(args)@).push(arg@));
}

/// Adds arguments.
pub(crate) fn push_args(args: &mut Vec<String>, more: &[String])
    ensures
        texts(final(args)@) == texts(old(args)@) + texts(more@),
{
    let ghost start = texts(args@);
    let mut i: usize = 0;
    assert(start + texts(more@).take(0) =~= start);
    while i < more.len()
        invariant
            i <= more@.len(),
            texts(args@) == start + texts(more@).take(i as int),
        decreases more@.len() - i,
    {
        push_arg(args, more[i].as_str());
        assert(start + texts(more@).take(i + 1) =~= (start + texts(more@).take(i as int)).push(
            more@[i as int]@,
        ));
        i = i + 1;
    }
    assert(texts(more@).take(i as int) =~= texts(more@));
}

impl InstallOptions {
    /// Extra `cargo install` arguments that reproduce this install.
    pub fn cargo_args(&self) -> (r: Vec<String>)
        ensures
            texts(r@) == replay_args(self@),
    {
        let mut args: Vec<String> = Vec::new();
        assert(texts(args@) =~= Seq::<Seq<char>>::empty());
        if self.no_default_features {
            push_arg(&mut args, "--no-default-features");
        }
        if self.all_features {
            push_arg(&mut args, "--all-features");
        }
        if self.features.len() > 0 {
            push_arg(&mut args, "--features");
            push_arg(&mut args, join(self.features.as_slice(), ",").as_str());
        }
        let ghost flags = texts(args@);
        assert(flags =~= only_if(self@.no_default_features, seq!["--no-default-features"@])
            + only_if(self@.all_features, seq!["--all-features"@]) + only_if(
            self@.features.len() > 0,
            seq!["--features"@, joined(self@.features, ","@)],
        ));
        let mut i: usize = 0;
        assert(self@.bins.take(0) =~= Seq::<Seq<char>>::empty());
        assert(flags + bin_args(self@.bins.take(0)) =~= flags);
        while i < self.bins.len()
            invariant
                i <= self.bins@.len(),
                texts(args@) == flags + bin_args(self@.bins.take(i as int)),
            decreases self.bins@.len() - i,
        {
            push_arg(&mut args, "--bin");
            push_arg(&mut args, self.bins[i].as_str());
            assert(self@.bins.take(i + 1).drop_last() =~= self@.bins.take(i as int));
            assert(flags + bin_args(self@.bins.take(i + 1)) =~= (flags + bin_args(
                self@.bins.take(i as int),
            )).push("--bin"@).push(self@.bins[i as int]));
            i = i + 1;
        }
        assert(self@.bins.take(i as int) =~= self@.bins);
        let ghost binned = texts(args@);
        if let Some(profile) = &self.profile {
            if same(profile.as_str(), "release") {
            } else if same(profile.as_str(), "dev") || same(profile.as_str(), "debug") {
                push_arg(&mut args, "--debug");
            } else {
                push_arg(&mut args, "--profile");
                push_arg(&mut args, profile.as_str());
            }
        }
        assert(texts(args@) =~= binned + profile_args(self@.profile));
        if let Some(target) = &self.target {
            push_arg(&mut args, "--target");
            push_arg(&mut args, target.as_str());
        }
        assert(texts(args@) =~= replay_args(self@));
        args
    }
}

/// A crate Cargo recorded as installed.
#[derive(Debug, Clone)]
pub struct InstalledPackage {
    /// Crate name.
    pub name: String,
    /// Installed version.
    pub version: Version,
    /// Where it was installed from.
    pub source: PackageSource,
    /// Original `cargo install` flags, if `.crates2.json` had them.
    pub install: InstallOptions,
}

/// The value of an [`InstalledPackage`].
pub struct InstalledPackageView {
    /// See [`InstalledPackage::name`].
    pub name: Seq<char>,
    /// See [`InstalledPackage::version`].
    pub version: VersionView,
    /// See [`InstalledPackage::source`].
    pub source: PackageSourceView,
    /// See [`InstalledPackage::install`].
    pub install: InstallOptionsView,
}

impl View for InstalledPackage {
    type V = InstalledPackageView;

    open spec fn view(&self) -> InstalledPackageView {
        InstalledPackageView {
            name: self.name@,
            version: self.version@,
            source: self.source@,
            install: self.install@,
        }
    }
}

impl Named for InstalledPackage {
    open spec fn name_of(value: InstalledPackageView) -> Seq<char> {
        value.name
    }

    fn name(&self) -> (r: &str) {
        self.name.as_str()
    }
}

/// The kind of source that a raw specifier stands for.
pub open spec fn classified(raw: Seq<char>) -> PackageSourceView {
    if "registry+"@.is_prefix_of(raw) || "sparse+"@.is_prefix_of(raw) {
        PackageSourceView::Registry { raw }
    } else if "git+"@.is_prefix_of(raw) {
        PackageSourceView::Git { raw }
    } else if "path+"@.is_prefix_of(raw) {
        PackageSourceView::Path { raw }
    } else {
        PackageSourceView::Other { raw }
    }
}

/// The package that a key of the install records stands for: a name, a version
/// and, in brackets, a source.
pub open spec fn keyed_package(key: Seq<char>) -> Option<InstalledPackageView> {
    match split_at_last(key, " ("@) {
        None => None,
        Some((head, tail)) => match (without_suffix(tail, ")"@), split_at_last(head, " "@)) {
            (Some(source), Some((name, version))) => match semver_parsed(version) {
                Some(version) => Some(
                    InstalledPackageView {
                        name,
                        version,
                        source: classified(source),
                        install: no_options(),
                    },
                ),
                None => None,
            },
            _ => None,
        },
    }
}

/// The kind of source that a raw specifier stands for.
pub fn classify_source(raw: &str) -> (r: PackageSource)
    ensures
        r@ == classified(raw@),
{
    let owned = raw.to_string();
    if starts_with(raw, "registry+") || starts_with(raw, "sparse+") {
        PackageSource::Registry { raw: owned }
    } else if starts_with(raw, "git+") {
        PackageSource::Git { raw: owned }
    } else if starts_with(raw, "path+") {
        PackageSource::Path { raw: owned }
    } else {
        PackageSource::Other { raw: owned }
    }
}

/// The package that a key of the install records stands for.
///
/// Keys look like
/// `"just 1.58.0 (registry+https://github.com/rust-lang/crates.io-index)"`.
pub fn parse_key(key: &str) -> (r: Option<InstalledPackage>)
    ensures
        opt_view(r) == keyed_package(key@),
{
    let (head, tail) = match rsplit_once(key, " (") {
        Some(sides) => sides,
        None => return None,
    };
    let source = match strip_suffix(tail, ")") {
        Some(source) => source,
        None => return None,
    };
    let (name, version) = match rsplit_once(head, " ") {
        Some(sides) => sides,
        None => return None,
    };
    match Version::parse(version) {
        Some(version) => Some(
            InstalledPackage {
                name: name.to_string(),
                version,
                source: classify_source(source),
                install: InstallOptions::default(),
            },
        ),
        None => None,
    }
}

/// The packages that the keys of a table stand for, in order; other keys are
/// passed over.
pub open spec fn keyed_packages(entries: Seq<(String, Node)>) -> Seq<InstalledPackageView>
    decreases entries.len(),
{
    if entries.len() == 0 {
        Seq::empty()
    } else {
        match keyed_package(entries.last().0@) {
            Some(package) => keyed_packages(entries.drop_last()).push(package),
            None => keyed_packages(entries.drop_last()),
        }
    }
}

/// The packages in the `[v1]` table of a document.
pub fn recorded_packages(document: &Node) -> (r: Vec<InstalledPackage>)
    ensures
        views(r@) == keyed_packages(entries_of(member(*document, "v1"@))),
{
    let mut packages: Vec<InstalledPackage> = Vec::new();
    assert(views(packages@) =~= Seq::<InstalledPackageView>::empty());
    if let Some(Node::Table(entries)) = document.get("v1") {
        let mut i: usize = 0;
        assert(entries@.take(0) =~= Seq::<(String, Node)>::empty());
        while i < entries.len()
            invariant
                i <= entries@.len(),
                views(packages@) == keyed_packages(entries@.take(i as int)),
            decreases entries@.len() - i,
        {
            assert(entries@.take(i + 1).drop_last() =~= entries@.take(i as int));
            if let Some(package) = parse_key(entries[i].0.as_str()) {
                let ghost before = packages@;
                packages.push(package);
                assert(views(packages@) =~= views(before).push(package@));
            }
            i = i + 1;
        }
        assert(entries@.take(i as int) =~= entries@);
    }
    packages
}

/// The packages in the text of a `.crates.toml`.
pub open spec fn crates_toml_packages(text: Seq<char>) -> Result<
    Seq<InstalledPackageView>,
    ErrorView,
> {
    match toml_document(text) {
        Ok(document) => Ok(keyed_packages(entries_of(member(document, "v1"@)))),
        Err(message) => Err(ErrorView::Config("could not parse .crates.toml: "@ + message)),
    }
}

/// The value of a result that is a list of packages.
pub open spec fn packages_view(r: Result<Vec<InstalledPackage>, Error>) -> Result<
    Seq<InstalledPackageView>,
    ErrorView,
> {
    match r {
        Ok(packages) => Ok(views(packages@)),
        Err(error) => Err(error@),
    }
}

/// Parse the `[v1]` table of `.crates.toml`.
pub fn parse_crates_toml(text: &str) -> (r: Result<Vec<InstalledPackage>, Error>)
    ensures
        packages_view(r) == crates_toml_packages(text@),
{
    match parse_toml(text) {
        Ok(document) => Ok(recorded_packages(&document)),
        Err(message) => Err(
            Error::Config(concat2("could not parse .crates.toml: ", message.as_str())),
        ),
    }
}

/// The strings in a list; other items are passed over.
pub open spec fn strings_in(items: Seq<Node>) -> Seq<Seq<char>>
    decreases items.len(),
{
    if items.len() == 0 {
        Seq::empty()
    } else {
        match items.last() {
            Node::Text(text) => strings_in(items.drop_last()).push(text@),
            _ => strings_in(items.drop_last()),
        }
    }
}

/// The strings in the list under `key`.
pub open spec fn strings_under(record: Node, key: Seq<char>) -> Seq<Seq<char>> {
    match member(record, key) {
        Some(Node::List(items)) => strings_in(items@),
        _ => Seq::empty(),
    }
}

/// The install flags of a record. An empty target counts as none.
pub open spec fn recorded_options(record: Node) -> InstallOptionsView {
    InstallOptionsView {
        features: strings_under(record, "features"@),
        all_features: bool_of(member(record, "all_features"@)) == Some(true),
        no_default_features: bool_of(member(record, "no_default_features"@)) == Some(true),
        bins: strings_under(record, "bins"@),
        profile: text_of(member(record, "profile"@)),
        target: match text_of(member(record, "target"@)) {
            Some(target) if target.len() > 0 => Some(target),
            _ => None,
        },
        version_req: text_of(member(record, "version_req"@)),
    }
}

fn strings(record: &Node, key: &str) -> (r: Vec<String>)
    ensures
        texts(r@) == strings_under(*record, key@),
{
    let mut result: Vec<String> = Vec::new();
    assert(texts(result@) =~= Seq::<Seq<char>>::empty());
    if let Some(Node::List(items)) = record.get(key) {
        let mut i: usize = 0;
        assert(items@.take(0) =~= Seq::<Node>::empty());
        while i < items.len()
            invariant
                i <= items@.len(),
                texts(result@) == strings_in(items@.take(i as int)),
            decreases items@.len() - i,
        {
            assert(items@.take(i + 1).drop_last() =~= items@.take(i as int));
            if let Node::Text(text) = &items[i] {
                push_arg(&mut result, text.as_str());
            }
            i = i + 1;
        }
        assert(items@.take(i as int) =~= items@);
    }
    result
}

fn owned_text(record: &Node, key: &str) -> (r: Option<String>)
    ensures
        opt_text(r) == text_of(member(*record, key@)),
{
    match record.text_at(key) {
        Some(text) => Some(text.clone()),
        None => None,
    }
}

/// The install flags of a record.
pub fn install_options_from_value(record: &Node) -> (r: InstallOptions)
    ensures
        r@ == recorded_options(*record),
{
    let all_features = match record.bool_at("all_features") {
        Some(value) => value,
        None => false,
    };
    let no_default_features = match record.bool_at("no_default_features") {
        Some(value) => value,
        None => false,
    };
    let target = match owned_text(record, "target") {
        Some(target) => if target.as_str().is_empty() {
            None
        } else {
            Some(target)
        },
        None => None,
    };
    InstallOptions {
        features: strings(record, "features"),
        all_features,
        no_default_features,
        bins: strings(record, "bins"),
        profile: owned_text(record, "profile"),
        target,
        version_req: owned_text(record, "version_req"),
    }
}

/// Whether two records speak of the same install: name, version and source.
pub open spec fn same_install(left: InstalledPackageView, right: InstalledPackageView) -> bool {
    &&& left.name == right.name
    &&& left.version == right.version
    &&& raw_source(left.source) == raw_source(right.source)
}

/// The first of `packages` that is the same install as `package`.
pub open spec fn first_same(
    packages: Seq<InstalledPackageView>,
    package: InstalledPackageView,
) -> Option<int>
    decreases packages.len(),
{
    if packages.len() == 0 {
        None
    } else {
        match first_same(packages.drop_last(), package) {
            Some(i) => Some(i),
            None => if same_install(packages.last(), package) {
                Some(packages.len() - 1)
            } else {
                None
            },
        }
    }
}

/// The packages after one record: the same install gets the record's flags; an
/// install that was not known is added.
pub open spec fn overlaid_by(
    packages: Seq<InstalledPackageView>,
    key: Seq<char>,
    record: Node,
) -> Seq<InstalledPackageView> {
    match keyed_package(key) {
        None => packages,
        Some(package) => {
            let install = recorded_options(record);
            match first_same(packages, package) {
                Some(i) => packages.update(i, InstalledPackageView { install, ..packages[i] }),
                None => packages.push(InstalledPackageView { install, ..package }),
            }
        },
    }
}

/// The packages after some records, in order.
pub open spec fn overlaid(
    packages: Seq<InstalledPackageView>,
    entries: Seq<(String, Node)>,
) -> Seq<InstalledPackageView>
    decreases entries.len(),
{
    if entries.len() == 0 {
        packages
    } else {
        overlaid_by(
            overlaid(packages, entries.drop_last()),
            entries.last().0@,
            entries.last().1,
        )
    }
}

fn find_same(packages: &Vec<InstalledPackage>, package: &InstalledPackage) -> (r: Option<usize>)
    ensures
        (match r {
            Some(i) => Some(i as int),
            None => None,
        }) == first_same(views(packages@), package@),
        r matches Some(i) ==> i < packages@.len(),
{
    let ghost all = views(packages@);
    let mut i: usize = 0;
    assert(all.take(0) =~= Seq::<InstalledPackageView>::empty());
    while i < packages.len()
        invariant
            i <= packages@.len(),
            all == views(packages@),
            first_same(all.take(i as int), package@) is None,
        decreases packages@.len() - i,
    {
        let other = &packages[i];
        assert(all.take(i + 1).drop_last() =~= all.take(i as int));
        assert(all.take(i + 1).last() == other@);
        if same(other.name.as_str(), package.name.as_str()) && other.version.same_as(
            &package.version,
        ) && same(other.source.raw(), package.source.raw()) {
            proof {
                lemma_first_same(all, package@, i + 1);
            }
            return Some(i);
        }
        i = i + 1;
    }
    assert(all.take(i as int) =~= all);
    None
}

proof fn lemma_first_same(
    packages: Seq<InstalledPackageView>,
    package: InstalledPackageView,
    n: int,
)
    requires
        0 <= n <= packages.len(),
        first_same(packages.take(n), package) is Some,
    ensures
        first_same(packages, package) == first_same(packages.take(n), package),
    decreases packages.len() - n,
{
    if n == packages.len() {
        assert(packages.take(n) =~= packages);
    } else {
        assert(packages.take(n + 1).drop_last() =~= packages.take(n));
        lemma_first_same(packages, package, n + 1);
    }
}

/// Overlays the install flags in a document onto `packages`.
pub fn overlay_records(packages: &mut Vec<InstalledPackage>, document: &Node)
    ensures
        views(final(packages)@) == overlaid(
            views(old(packages)@),
            entries_of(member(*document, "installs"@)),
        ),
{
    let ghost start = views(packages@);
    if let Some(Node::Table(entries)) = document.get("installs") {
        let mut i: usize = 0;
        assert(entries@.take(0) =~= Seq::<(String, Node)>::empty());
        while i < entries.len()
            invariant
                i <= entries@.len(),
                views(packages@) == overlaid(start, entries@.take(i as int)),
            decreases entries@.len() - i,
        {
            let ghost before = packages@;
            assert(entries@.take(i + 1).drop_last() =~= entries@.take(i as int));
            if let Some(mut parsed) = parse_key(entries[i].0.as_str()) {
                let install = install_options_from_value(&entries[i].1);
                match find_same(packages, &parsed) {
                    Some(at) => {
                        packages[at].install = install;
                    },
                    None => {
                        parsed.install = install;
                        packages.push(parsed);
                    },
                }
                assert(views(packages@) =~= overlaid_by(
                    views(before),
                    entries@[i as int].0@,
                    entries@[i as int].1,
                ));
            }
            i = i + 1;
        }
        assert(entries@.take(i as int) =~= entries@);
    }
}

/// The packages after the text of a `.crates2.json`.
pub open spec fn overlaid_text(packages: Seq<InstalledPackageView>, text: Seq<char>) -> Result<
    Seq<InstalledPackageView>,
    ErrorView,
> {
    match json_document(text) {
        Ok(document) => Ok(overlaid(packages, entries_of(member(document, "installs"@)))),
        Err(message) => Err(ErrorView::Config("could not parse .crates2.json: "@ + message)),
    }
}

/// Overlay `.crates2.json` install flags onto packages parsed from `.crates.toml`.
///
/// Entries that are only in the JSON file are appended.
pub fn overlay_crates2(packages: &mut Vec<InstalledPackage>, text: &str) -> (r: Result<(), Error>)
    ensures
        match overlaid_text(views(old(packages)@), text@) {
            Ok(after) => r is Ok && views(final(packages)@) == after,
            Err(error) => r matches Err(e) && e@ == error && final(packages)@ == old(packages)@,
        },
{
    match parse_json(text) {
        Ok(document) => {
            overlay_records(packages, &document);
            Ok(())
        },
        Err(message) => Err(
            Error::Config(concat2("could not parse .crates2.json: ", message.as_str())),
        ),
    }
}

/// The packages that the two record files hold, in the order of the files.
pub open spec fn recorded(crates_toml: FoundView, crates2: FoundView) -> Result<
    Seq<InstalledPackageView>,
    ErrorView,
> {
    let listed = match crates_toml {
        FoundView::Missing => Ok(Seq::empty()),
        FoundView::Text(text) => crates_toml_packages(text),
        FoundView::Unreadable(error) => Err(error),
    };
    match listed {
        Err(error) => Err(error),
        Ok(packages) => match crates2 {
            FoundView::Missing => Ok(packages),
            FoundView::Text(text) => overlaid_text(packages, text),
            FoundView::Unreadable(error) => Err(error),
        },
    }
}

/// The packages in the record files of an install root, `.crates.toml` and
/// `.crates2.json`, sorted by name.
pub fn installed_packages_in(crates_toml: Found, crates2: Found) -> (r: Result<
    Vec<InstalledPackage>,
    Error,
>)
    ensures
        match recorded(crates_toml@, crates2@) {
            Ok(packages) => r matches Ok(listed) && stably_sorted::<InstalledPackage>(
                packages,
                views(listed@),
            ),
            Err(error) => r matches Err(e) && e@ == error,
        },
{
    let mut packages: Vec<InstalledPackage> = Vec::new();
    assert(views(packages@) =~= Seq::<InstalledPackageView>::empty());
    match crates_toml {
        Found::Missing => {},
        Found::Text(text) => match parse_crates_toml(text.as_str()) {
            Ok(listed) => {
                packages = listed;
            },
            Err(error) => return Err(error),
        },
        Found::Unreadable(error) => return Err(error),
    }
    match crates2 {
        Found::Missing => {},
        Found::Text(text) => match overlay_crates2(&mut packages, text.as_str()) {
            Ok(()) => {},
            Err(error) => return Err(error),
        },
        Found::Unreadable(error) => return Err(error),
    }
    Ok(sort_by_name(packages))
}

/// Whether two values are the same install of the same package.
pub open spec fn same_package(left: InstalledPackageView, right: InstalledPackageView) -> bool {
    left.name == right.name && left.version == right.version && left.source == right.source
}

/// Overlaying install flags drops no package and changes nothing of one but its
/// flags; what is new stands behind what was there.
pub proof fn overlay_keeps_packages(
    packages: Seq<InstalledPackageView>,
    entries: Seq<(String, Node)>,
)
    ensures
        overlaid(packages, entries).len() >= packages.len(),
        forall|i: int|
            0 <= i < packages.len() ==> same_package(
                #[trigger] overlaid(packages, entries)[i],
                packages[i],
            ),
    decreases entries.len(),
{
    if entries.len() > 0 {
        overlay_keeps_packages(packages, entries.drop_last());
        let before = overlaid(packages, entries.drop_last());
        let (key, record) = (entries.last().0@, entries.last().1);
        if let Some(package) = keyed_package(key) {
            lemma_first_same_found(before, package);
        }
        assert forall|i: int| 0 <= i < packages.len() implies same_package(
            #[trigger] overlaid(packages, entries)[i],
            packages[i],
        ) by {
            assert(same_package(before[i], packages[i]));
        }
    }
}

pub(crate) proof fn lemma_first_same_found(
    packages: Seq<InstalledPackageView>,
    package: InstalledPackageView,
)
    ensures
        match first_same(packages, package) {
            Some(i) => 0 <= i < packages.len() && same_install(packages[i], package) && forall|j: int|
                0 <= j < i ==> !same_install(#[trigger] packages[j], package),
            None => forall|j: int|
                0 <= j < packages.len() ==> !same_install(#[trigger] packages[j], package),
        },
    decreases packages.len(),
{
    if packages.len() > 0 {
        lemma_first_same_found(packages.drop_last(), package);
        assert forall|j: int| 0 <= j < packages.len() - 1 implies #[trigger] packages[j]
            == packages.drop_last()[j] by {}
    }
}

/// A record's flags reach the install that it speaks of: the first one with the
/// record's name, version and source has exactly the recorded flags.
pub proof fn overlay_records_flags(
    packages: Seq<InstalledPackageView>,
    key: Seq<char>,
    record: Node,
)
    requires
        keyed_package(key) is Some,
    ensures
        ({
            let package = keyed_package(key)->0;
            let after = overlaid_by(packages, key, record);
            first_same(after, package) matches Some(i) && after[i].install == recorded_options(
                record,
            )
        }),
{
    let package = keyed_package(key)->0;
    let after = overlaid_by(packages, key, record);
    lemma_first_same_found(packages, package);
    lemma_first_same_found(after, package);
    match first_same(packages, package) {
        Some(i) => {
            assert(same_install(after[i], package));
            assert forall|j: int| 0 <= j < i implies !same_install(
                #[trigger] after[j],
                package,
            ) by {
                assert(after[j] == packages[j]);
            }
        },
        None => {
            let n = packages.len() as int;
            assert(same_install(after[n], package));
            assert forall|j: int| 0 <= j < n implies !same_install(#[trigger] after[j], package) by {
                assert(after[j] == packages[j]);
            }
        },
    }
}

/// A key that is put together the way Cargo writes it is taken apart again, as
/// long as neither the version nor the source holds what separates the parts.
pub proof fn key_is_taken_apart(
    name: Seq<char>,
    version: Seq<char>,
    source: Seq<char>,
)
    requires
        semver_parsed(version) is Some,
        !version.contains(' '),
        forall|i: int| !occurs_at(source, " ("@, i),
    ensures
        keyed_package(name + " "@ + version + " ("@ + source + ")"@) == Some(
            InstalledPackageView {
                name,
                version: semver_parsed(version)->0,
                source: classified(source),
                install: no_options(),
            },
        ),
{
    reveal_strlit(" (");
    reveal_strlit(" ");
    reveal_strlit(")");
    let head = name + " "@ + version;
    let tail = source + ")"@;
    let (h, n) = (head.len() as int, name.len() as int);
    let key = name + " "@ + version + " ("@ + source + ")"@;
    assert(key =~= head + " ("@ + tail);
    assert forall|i: int| h < i implies !occurs_at(key, " ("@, i) by {
        if occurs_at(key, " ("@, i) {
            let at = i - h - 2;
            assert(key.subrange(i, i + 2)[0] == key[i]);
            assert(key.subrange(i, i + 2)[1] == key[i + 1]);
            assert(key[i] == ' ' && key[i + 1] == '(');
            if at < 0 {
                assert(key[h + 1] == '(');
            } else {
                assert(tail[at] == key[i] && tail[at + 1] == key[i + 1]);
                assert(at + 1 < source.len());
                assert(source.subrange(at, at + 2) =~= " ("@);
                assert(occurs_at(source, " ("@, at));
            }
        }
    }
    assert(occurs_at(key, " ("@, h)) by {
        assert(key.subrange(h, h + 2) =~= " ("@);
    }
    lemma_last_occurrence(key, " ("@, h, key.len() + 1);
    assert(key.take(h) =~= head);
    assert(key.skip(h + 2) =~= tail);
    assert(")"@.is_suffix_of(tail)) by {
        assert(tail.subrange(source.len() as int, tail.len() as int) =~= ")"@);
    }
    assert(tail.take(tail.len() - 1) =~= source);
    assert forall|i: int| n < i implies !occurs_at(head, " "@, i) by {
        if occurs_at(head, " "@, i) {
            assert(head.subrange(i, i + 1)[0] == head[i]);
            assert(version[i - n - 1] == ' ');
        }
    }
    assert(occurs_at(head, " "@, n)) by {
        assert(head.subrange(n, n + 1) =~= " "@);
    }
    lemma_last_occurrence(head, " "@, n, head.len() + 1);
    assert(head.take(n) =~= name);
    assert(head.skip(n + 1) =~= version);
}

proof fn lemma_last_occurrence(s: Seq<char>, pattern: Seq<char>, at: int, end: nat)
    requires
        0 <= at < end,
        occurs_at(s, pattern, at),
        forall|i: int| at < i ==> !occurs_at(s, pattern, i),
    ensures
        last_occurrence(s, pattern, end) == Some(at as nat),
    decreases end,
{
    if end - 1 > at {
        lemma_last_occurrence(s, pattern, at, (end - 1) as nat);
    }
}

} // verus!
