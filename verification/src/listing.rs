//! Installed packages by name: listings, and the registry that knows a package.

use vstd::prelude::*;

use crate::error::{Error, ErrorView};
use crate::order::views;
use crate::packages::{
    push_arg, source_tag, InstalledPackage, InstalledPackageView, PackageSource, PackageSourceView,
};
use crate::registry::{resolved, Registries, RegistriesView, CRATES_IO_NAME};
use crate::text::{append_padded, byte_length, opt_str, opt_text, padded, same, texts};
use crate::updates::name_width;
use crate::version::version_text;

verus! {

/// The first package with the given name.
pub open spec fn named_package(packages: Seq<InstalledPackageView>, name: Seq<char>) -> Option<
    InstalledPackageView,
>
    decreases packages.len(),
{
    if packages.len() == 0 {
        None
    } else if packages[0].name == name {
        Some(packages[0])
    } else {
        named_package(packages.skip(1), name)
    }
}

/// The packages with the given names, in the order of the names, or an error
/// for the first name that is not installed.
pub open spec fn named_packages(
    packages: Seq<InstalledPackageView>,
    names: Seq<Seq<char>>,
) -> Result<Seq<InstalledPackageView>, ErrorView>
    decreases names.len(),
{
    if names.len() == 0 {
        Ok(Seq::empty())
    } else {
        match named_packages(packages, names.drop_last()) {
            Err(error) => Err(error),
            Ok(selected) => match named_package(packages, names.last()) {
                Some(package) => Ok(selected.push(package)),
                None => Err(ErrorView::NotInstalled(names.last())),
            },
        }
    }
}

/// The packages that a listing shows: all of them, or the named ones.
pub open spec fn selected_packages(
    packages: Seq<InstalledPackageView>,
    query: Option<Seq<Seq<char>>>,
) -> Result<Seq<InstalledPackageView>, ErrorView> {
    match query {
        Some(names) => named_packages(packages, names),
        None => Ok(packages),
    }
}

/// The line for a package, with the name filled up to `width`.
pub open spec fn package_line(package: InstalledPackageView, width: nat) -> Seq<char> {
    padded(package.name, width) + " "@ + version_text(package.version) + (match source_tag(
        package.source,
    ) {
        Some(tag) => " ("@ + tag + ")"@,
        None => Seq::empty(),
    })
}

/// The names of some packages.
pub open spec fn package_names(packages: Seq<InstalledPackageView>) -> Seq<Seq<char>> {
    packages.map_values(|package: InstalledPackageView| package.name)
}

/// The lines for some packages.
pub open spec fn package_lines(packages: Seq<InstalledPackageView>) -> Seq<Seq<char>> {
    let width = name_width(package_names(packages));
    packages.map_values(|package: InstalledPackageView| package_line(package, width))
}

/// The first package with the given name.
pub fn find_package<'a>(packages: &'a [InstalledPackage], name: &str) -> (r: Option<
    &'a InstalledPackage,
>)
    ensures
        (match r {
            Some(package) => Some(package@),
            None => None,
        }) == named_package(views(packages@), name@),
{
    let ghost all = views(packages@);
    let mut i: usize = 0;
    assert(all.skip(0) =~= all);
    while i < packages.len()
        invariant
            i <= packages@.len(),
            all == views(packages@),
            named_package(all, name@) == named_package(all.skip(i as int), name@),
        decreases packages@.len() - i,
    {
        assert(all.skip(i as int).skip(1) =~= all.skip(i + 1));
        assert(all.skip(i as int)[0] == packages@[i as int]@);
        if same(packages[i].name.as_str(), name) {
            return Some(&packages[i]);
        }
        i = i + 1;
    }
    None
}

/// The packages with the given names.
fn select<'a>(packages: &'a [InstalledPackage], names: &[String]) -> (r: Result<
    Vec<&'a InstalledPackage>,
    Error,
>)
    ensures
        match named_packages(views(packages@), texts(names@)) {
            Ok(selected) => r matches Ok(found) && views(found@) == selected,
            Err(error) => r matches Err(e) && e@ == error,
        },
{
    let ghost all = texts(names@);
    let mut selected: Vec<&InstalledPackage> = Vec::new();
    let mut i: usize = 0;
    assert(all.take(0) =~= Seq::<Seq<char>>::empty());
    assert(views(selected@) =~= Seq::<InstalledPackageView>::empty());
    while i < names.len()
        invariant
            i <= names@.len(),
            all == texts(names@),
            named_packages(views(packages@), all.take(i as int)) == Ok::<_, ErrorView>(
                views(selected@),
            ),
        decreases names@.len() - i,
    {
        assert(all.take(i + 1).drop_last() =~= all.take(i as int));
        assert(all.take(i + 1).last() == names@[i as int]@);
        match find_package(packages, names[i].as_str()) {
            Some(package) => {
                let ghost before = selected@;
                selected.push(package);
                assert(views(selected@) =~= views(before).push(package@));
            },
            None => {
                proof {
                    lemma_first_missing(views(packages@), all, i + 1);
                }
                return Err(Error::NotInstalled(names[i].clone()));
            },
        }
        i = i + 1;
    }
    assert(all.take(i as int) =~= all);
    Ok(selected)
}

/// An error for the first names is the error for all.
proof fn lemma_first_missing(
    packages: Seq<InstalledPackageView>,
    names: Seq<Seq<char>>,
    n: int,
)
    requires
        0 <= n <= names.len(),
        named_packages(packages, names.take(n)) is Err,
    ensures
        named_packages(packages, names) == named_packages(packages, names.take(n)),
    decreases names.len() - n,
{
    if n == names.len() {
        assert(names.take(n) =~= names);
    } else {
        assert(names.take(n + 1).drop_last() =~= names.take(n));
        lemma_first_missing(packages, names, n + 1);
    }
}

/// The lines for some packages.
fn show_packages(packages: &[&InstalledPackage]) -> (r: Vec<String>)
    ensures
        texts(r@) == package_lines(views(packages@)),
{
    let ghost all = views(packages@);
    let ghost names = package_names(all);
    let mut width: usize = 0;
    let mut i: usize = 0;
    assert(names.take(0) =~= Seq::<Seq<char>>::empty());
    while i < packages.len()
        invariant
            i <= packages@.len(),
            all == views(packages@),
            names == package_names(all),
            width == name_width(names.take(i as int)),
        decreases packages@.len() - i,
    {
        assert(names.take(i + 1).drop_last() =~= names.take(i as int));
        assert(names.take(i + 1).last() == packages@[i as int].name@);
        let length: usize = byte_length(packages[i].name.as_str());
        if length > width {
            width = length;
        }
        i = i + 1;
    }
    assert(names.take(i as int) =~= names);

    let mut lines: Vec<String> = Vec::new();
    let mut k: usize = 0;
    assert(texts(lines@) =~= package_lines(all).take(0));
    while k < packages.len()
        invariant
            k <= packages@.len(),
            all == views(packages@),
            width == name_width(package_names(all)),
            texts(lines@) == package_lines(all).take(k as int),
        decreases packages@.len() - k,
    {
        let package = packages[k];
        let mut line = String::new();
        append_padded(&mut line, package.name.as_str(), width);
        assert(line@ =~= padded(package@.name, width as nat));
        line.append(" ");
        line.append(package.version.text().as_str());
        let ghost start = line@;
        if let Some(tag) = package.source.list_tag() {
            line.append(" (");
            line.append(tag);
            line.append(")");
            assert(line@ =~= start + (" ("@ + tag@ + ")"@));
        }
        assert(line@ =~= package_line(package@, width as nat));
        push_arg(&mut lines, line.as_str());
        assert(package_lines(all).take(k + 1) =~= package_lines(all).take(k as int).push(
            package_lines(all)[k as int],
        ));
        k = k + 1;
    }
    assert(package_lines(all).take(k as int) =~= package_lines(all));
    lines
}

/// The lines of a listing, or an error for the first name that is not
/// installed.
pub fn list_packages(packages: &[InstalledPackage], query: Option<&Vec<String>>) -> (r: Result<
    Vec<String>,
    Error,
>)
    ensures
        match selected_packages(
            views(packages@),
            match query {
                Some(names) => Some(texts(names@)),
                None => None,
            },
        ) {
            Ok(selected) => r matches Ok(lines) && texts(lines@) == package_lines(selected),
            Err(error) => r matches Err(e) && e@ == error,
        },
{
    match query {
        Some(names) => match select(packages, names.as_slice()) {
            Ok(selected) => Ok(show_packages(selected.as_slice())),
            Err(error) => Err(error),
        },
        None => {
            let mut selected: Vec<&InstalledPackage> = Vec::new();
            let mut i: usize = 0;
            assert(views(selected@) =~= views(packages@).take(0));
            while i < packages.len()
                invariant
                    i <= packages@.len(),
                    views(selected@) =~= views(packages@).take(i as int),
                decreases packages@.len() - i,
            {
                let ghost before = selected@;
                selected.push(&packages[i]);
                assert(views(selected@) =~= views(before).push(packages@[i as int]@));
                i = i + 1;
            }
            assert(views(packages@).take(i as int) =~= views(packages@));
            Ok(show_packages(selected.as_slice()))
        },
    }
}

/// The registry that a package was installed from, by the name that `--registry`
/// takes.
pub open spec fn registry_name_of(
    packages: Seq<InstalledPackageView>,
    config: Option<RegistriesView>,
    name: Seq<char>,
) -> Option<Seq<char>> {
    match (named_package(packages, name), config) {
        (Some(package), Some(config)) => match package.source {
            PackageSourceView::Registry { raw } => match resolved(config, raw) {
                Ok(registry) => registry.name,
                Err(_) => None,
            },
            _ => None,
        },
        _ => None,
    }
}

/// The value of an optional configuration.
pub open spec fn config_view(registries: Option<&Registries>) -> Option<RegistriesView> {
    match registries {
        Some(registries) => Some(registries@),
        None => None,
    }
}

/// The registry that a package was installed from, if it is not crates.io and
/// can be told.
pub fn installed_registry_name(
    installed: &[InstalledPackage],
    registries: Option<&Registries>,
    name: &str,
) -> (r: Option<String>)
    ensures
        opt_text(r) == registry_name_of(views(installed@), config_view(registries), name@),
{
    let package = match find_package(installed, name) {
        Some(package) => package,
        None => return None,
    };
    match (&package.source, registries) {
        (PackageSource::Registry { raw }, Some(registries)) => match registries.resolve(
            raw.as_str(),
        ) {
            Ok(registry) => registry.name,
            Err(_) => None,
        },
        _ => None,
    }
}

/// A `cargo` command with one argument, and a registry where one is named.
pub open spec fn with_registry(
    command: Seq<char>,
    argument: Seq<char>,
    registry: Option<Seq<char>>,
) -> Seq<Seq<char>> {
    match registry {
        Some(name) => seq![command, argument, "--registry"@, name],
        None => seq![command, argument],
    }
}

fn registry_args(command: &str, argument: &str, registry: Option<&str>) -> (r: Vec<String>)
    ensures
        texts(r@) == with_registry(command@, argument@, opt_str(registry)),
{
    let mut args: Vec<String> = Vec::new();
    assert(texts(args@) =~= Seq::<Seq<char>>::empty());
    push_arg(&mut args, command);
    push_arg(&mut args, argument);
    if let Some(name) = registry {
        push_arg(&mut args, "--registry");
        push_arg(&mut args, name);
    }
    assert(texts(args@) =~= with_registry(command@, argument@, opt_str(registry)));
    args
}

/// The registry that a search asks: the default one, unless that is crates.io.
pub open spec fn search_registry(config: Option<RegistriesView>) -> Option<Seq<char>> {
    match config {
        Some(config) => match config.default_registry {
            Some(name) if name != CRATES_IO_NAME@ => Some(name),
            _ => None,
        },
        None => None,
    }
}

/// The `cargo` arguments of a search.
pub open spec fn search_call(query: Seq<char>, config: Option<RegistriesView>) -> Seq<Seq<char>> {
    with_registry("search"@, query, search_registry(config))
}

/// The `cargo` arguments that show a package.
pub open spec fn info_call(
    package: Seq<char>,
    installed: Seq<InstalledPackageView>,
    config: Option<RegistriesView>,
) -> Seq<Seq<char>> {
    with_registry("info"@, package, registry_name_of(installed, config, package))
}

/// The `cargo` arguments of a search.
pub fn search_args(query: &str, registries: Option<&Registries>) -> (r: Vec<String>)
    ensures
        texts(r@) == search_call(query@, config_view(registries)),
{
    let registry = match registries {
        Some(registries) => match registries.default_registry() {
            Some(name) => if same(name, CRATES_IO_NAME) {
                None
            } else {
                Some(name)
            },
            None => None,
        },
        None => None,
    };
    registry_args("search", query, registry)
}

/// The `cargo` arguments that show a package.
pub fn info_args(
    package: &str,
    installed: &[InstalledPackage],
    registries: Option<&Registries>,
) -> (r: Vec<String>)
    ensures
        texts(r@) == info_call(package@, views(installed@), config_view(registries)),
{
    match installed_registry_name(installed, registries, package) {
        Some(name) => registry_args("info", package, Some(name.as_str())),
        None => registry_args("info", package, None),
    }
}

/// A listing fails exactly when one of the names that it is asked for is not
/// installed, and then it names one of these.
pub proof fn listing_needs_installed_names(
    packages: Seq<InstalledPackageView>,
    names: Seq<Seq<char>>,
)
    ensures
        named_packages(packages, names) is Ok == (forall|i: int|
            0 <= i < names.len() ==> named_package(packages, #[trigger] names[i]) is Some),
        named_packages(packages, names) matches Err(error) ==> (error matches ErrorView::NotInstalled(name)
            && names.contains(name) && named_package(packages, name) is None),
    decreases names.len(),
{
    if names.len() > 0 {
        let before = names.drop_last();
        listing_needs_installed_names(packages, before);
        assert(forall|i: int| 0 <= i < before.len() ==> #[trigger] names[i] == before[i]);
        assert(forall|i: int| 0 <= i < before.len() ==> #[trigger] before[i] == names[i]);
        assert(names[names.len() - 1] == names.last());
        if named_packages(packages, before) is Err {
            let name = named_packages(packages, before)->Err_0->NotInstalled_0;
            let k = choose|k: int| 0 <= k < before.len() && before[k] == name;
            assert(names[k] == name);
        }
    }
}

/// A listing has one line for each package, in order, and the line starts with
/// the package's name.
pub proof fn listing_has_a_line_for_each(packages: Seq<InstalledPackageView>)
    ensures
        package_lines(packages).len() == packages.len(),
        forall|i: int|
            0 <= i < packages.len() ==> packages[i].name.is_prefix_of(
                #[trigger] package_lines(packages)[i],
            ),
{
    let width = name_width(package_names(packages));
    assert forall|i: int| 0 <= i < packages.len() implies packages[i].name.is_prefix_of(
        #[trigger] package_lines(packages)[i],
    ) by {
        let line = package_line(packages[i], width);
        assert(line.subrange(0, packages[i].name.len() as int) =~= packages[i].name);
    }
}

} // verus!
