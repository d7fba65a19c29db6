//! The sparse index of a registry: where a crate's file stands, what it says,
//! and how often it is asked for.

use vstd::prelude::*;
use vstd::utf8::{encode_utf8, is_ascii_chars};

use crate::error::{opt_view, result_opt_view, Error, ErrorView};
use crate::node::{
    bool_of, json_document, json_object_written, member, member_texts, parse_json, text_of,
    write_json_object, Node,
};
use crate::laws::lookups::{counts, every_version_that_counts_is_offered};
use crate::registry::Registry;
use crate::text::{
    append_hex, blank, concat2, concat3, copy_strings, hex, is_blank, lines, lines_of, lower_ascii,
    opt_text, same, texts,
};
use crate::version::{is_semver, newer, semver_parsed, Version, VersionView};

verus! {

/// The text in lower case, as Unicode defines it.
pub uninterp spec fn unicode_lowercase(text: Seq<char>) -> Seq<char>;

/// A text with its ASCII capitals in lower case.
pub open spec fn ascii_lowercase(text: Seq<char>) -> Seq<char> {
    text.map_values(|c: char| lower_ascii(c))
}

/// `str::to_lowercase` of the standard library. The result is named; of an ASCII
/// text only the capitals change.
#[verifier::external_body]
fn lowercase(text: &str) -> (r: String)
    ensures
        r@ == unicode_lowercase(text@),
        is_ascii_chars(text@) ==> r@ == ascii_lowercase(text@),
{
    text.to_lowercase()
}

/// Where the index file of a crate stands, by the length of its lower case name.
/// A name that is not ASCII, or empty, stands for itself.
pub open spec fn layout(name: Seq<char>) -> Seq<char> {
    if !is_ascii_chars(name) || name.len() == 0 {
        name
    } else if name.len() == 1 {
        "1/"@ + name
    } else if name.len() == 2 {
        "2/"@ + name
    } else if name.len() == 3 {
        "3/"@ + name.take(1) + "/"@ + name
    } else {
        name.take(2) + "/"@ + name.subrange(2, 4) + "/"@ + name
    }
}

/// Where the index file of a crate with the given lower case name stands.
pub fn index_layout(name: &str) -> (r: String)
    ensures
        r@ == layout(name@),
{
    if !name.is_ascii() {
        return name.to_string();
    }
    let length: usize = name.unicode_len();
    if length == 0 {
        name.to_string()
    } else if length == 1 {
        concat2("1/", name)
    } else if length == 2 {
        concat2("2/", name)
    } else if length == 3 {
        let mut out = concat3("3/", name.substring_ascii(0, 1), "/");
        out.append(name);
        assert(name@.subrange(0, 1) =~= name@.take(1));
        out
    } else {
        let mut out = concat3(name.substring_ascii(0, 2), "/", name.substring_ascii(2, 4));
        out.append("/");
        out.append(name);
        assert(name@.subrange(0, 2) =~= name@.take(2));
        out
    }
}

/// Index files are laid out by name length:
///
/// ```text
/// ju/st/just, 3/b/bat, 2/ab, 1/a
/// ```
///
/// Crate names are ASCII, so byte offsets are character offsets. Anything else
/// cannot name a real crate; the fetch is allowed to 404.
pub fn index_path(name: &str) -> (r: String)
    requires
        name@.len() > 0,
    ensures
        r@ == layout(unicode_lowercase(name@)),
        is_ascii_chars(name@) ==> r@ == layout(ascii_lowercase(name@)),
{
    let lower = lowercase(name);
    index_layout(lower.as_str())
}

/// The URL of a crate's index file.
pub fn index_url(registry: &Registry, name: &str) -> (r: String)
    requires
        name@.len() > 0,
    ensures
        r@ == registry@.index + layout(unicode_lowercase(name@)),
        is_ascii_chars(name@) ==> r@ == registry@.index + layout(ascii_lowercase(name@)),
{
    concat2(registry.index.as_str(), index_path(name).as_str())
}

/// The 64-bit FNV-1a hash of some bytes.
pub open spec fn fnv(bytes: Seq<u8>) -> u64
    decreases bytes.len(),
{
    if bytes.len() == 0 {
        0xcbf29ce484222325u64
    } else {
        (((fnv(bytes.drop_last()) ^ (bytes.last() as u64)) * 0x100_0000_01b3)
            % 0x1_0000_0000_0000_0000) as u64
    }
}

/// The 64-bit FNV-1a hash of a text in UTF-8.
pub fn fnv1a64(data: &str) -> (r: u64)
    ensures
        r == fnv(encode_utf8(data@)),
{
    let bytes = data.as_bytes();
    let mut hash: u64 = 0xcbf29ce484222325;
    let mut i: usize = 0;
    assert(bytes@.take(0) =~= Seq::<u8>::empty());
    while i < bytes.len()
        invariant
            i <= bytes@.len(),
            hash == fnv(bytes@.take(i as int)),
        decreases bytes@.len() - i,
    {
        assert(bytes@.take(i + 1).drop_last() =~= bytes@.take(i as int));
        hash = hash ^ (bytes[i] as u64);
        hash = hash.wrapping_mul(0x100_0000_01b3);
        i = i + 1;
    }
    assert(bytes@.take(i as int) =~= bytes@);
    hash
}

/// An index file that was stored, and the tag it came with.
#[derive(Debug)]
pub struct Cached {
    /// The entity tag.
    pub etag: Option<String>,
    /// The file.
    pub body: String,
}

/// The value of a [`Cached`] file.
pub struct CachedView {
    /// See [`Cached::etag`].
    pub etag: Option<Seq<char>>,
    /// See [`Cached::body`].
    pub body: Seq<char>,
}

impl View for Cached {
    type V = CachedView;

    open spec fn view(&self) -> CachedView {
        CachedView { etag: opt_text(self.etag), body: self.body@ }
    }
}

/// The name of the cache file for a URL.
pub open spec fn cache_file_name(url: Seq<char>) -> Seq<char> {
    hex(fnv(encode_utf8(url)) as nat, 16) + ".json"@
}

/// What a cache document holds for `url`. A document of another URL, or one
/// without a body, holds nothing.
pub open spec fn cached_in(document: Node, url: Seq<char>) -> Option<CachedView> {
    match text_of(member(document, "body"@)) {
        Some(body) if text_of(member(document, "url"@)) == Some(url) => Some(
            CachedView { etag: text_of(member(document, "etag"@)), body },
        ),
        _ => None,
    }
}

/// What a cache file's text holds for `url`.
pub open spec fn cached_text(text: Seq<char>, url: Seq<char>) -> Option<CachedView> {
    match json_document(text) {
        Ok(document) => cached_in(document, url),
        Err(_) => None,
    }
}

/// The members of the document that is stored for a URL.
pub open spec fn cache_members(url: Seq<char>, etag: Seq<char>, body: Seq<char>) -> Seq<
    (Seq<char>, Seq<char>),
> {
    seq![("url"@, url), ("etag"@, etag), ("body"@, body)]
}

/// The text that is stored for a URL.
pub open spec fn cache_text(url: Seq<char>, etag: Seq<char>, body: Seq<char>) -> Seq<char> {
    json_object_written(cache_members(url, etag, body))
}

/// On-disk ETag cache under `$CARGO_HOME/pkgman/cache`.
#[derive(Debug)]
pub struct IndexCache {
    dir: Vec<String>,
}

impl View for IndexCache {
    type V = Seq<Seq<char>>;

    closed spec fn view(&self) -> Seq<Seq<char>> {
        texts(self.dir@)
    }
}

/// Reads a cache document.
pub fn read_document(document: &Node, url: &str) -> (r: Option<Cached>)
    ensures
        opt_view(r) == cached_in(*document, url@),
{
    match document.text_at("url") {
        Some(stored) => {
            if !same(stored.as_str(), url) {
                return None;
            }
        },
        None => return None,
    }
    let etag = match document.text_at("etag") {
        Some(etag) => Some(etag.clone()),
        None => None,
    };
    match document.text_at("body") {
        Some(body) => Some(Cached { etag, body: body.clone() }),
        None => None,
    }
}

impl IndexCache {
    /// The cache directory, as the directories that lead to it from Cargo's
    /// home.
    pub fn new() -> (r: Self)
        ensures
            r@ == seq!["pkgman"@, "cache"@],
    {
        let mut dir: Vec<String> = Vec::new();
        dir.push("pkgman".to_string());
        dir.push("cache".to_string());
        assert(texts(dir@) =~= seq!["pkgman"@, "cache"@]);
        IndexCache { dir }
    }

    /// The directories that lead to the cache.
    pub fn dir(&self) -> (r: &Vec<String>)
        ensures
            texts(r@) == self@,
    {
        &self.dir
    }

    /// The file for `url`, as the names that lead to it from Cargo's home.
    pub fn path_for(&self, url: &str) -> (r: Vec<String>)
        ensures
            texts(r@) == self@.push(cache_file_name(url@)),
    {
        let mut path = copy_strings(self.dir.as_slice());
        let mut name = String::new();
        append_hex(&mut name, fnv1a64(url), 16);
        name.append(".json");
        assert(name@ =~= cache_file_name(url@));
        let ghost before = path@;
        path.push(name);
        assert(texts(path@) =~= texts(before).push(name@));
        path
    }

    /// What the text of a cache file holds for `url`.
    pub fn get(&self, url: &str, text: &str) -> (r: Option<Cached>)
        ensures
            opt_view(r) == cached_text(text@, url@),
    {
        match parse_json(text) {
            Ok(document) => read_document(&document, url),
            Err(_) => None,
        }
    }

    /// The text to store for `url`. Reading it back gives what was stored.
    pub fn put(&self, url: &str, etag: &str, body: &str) -> (r: String)
        ensures
            r@ == cache_text(url@, etag@, body@),
            cached_text(r@, url@) == Some(CachedView { etag: Some(etag@), body: body@ }),
            forall|other: Seq<char>| other != url@ ==> #[trigger] cached_text(r@, other) is None,
    {
        let mut members: Vec<(String, String)> = Vec::new();
        members.push(("url".to_string(), url.to_string()));
        members.push(("etag".to_string(), etag.to_string()));
        members.push(("body".to_string(), body.to_string()));
        proof {
            reveal_strlit("url");
            reveal_strlit("etag");
            reveal_strlit("body");
            assert("url"@[0] != "etag"@[0]);
            assert("url"@[0] != "body"@[0]);
            assert("etag"@[0] != "body"@[0]);
            assert(member_texts(members@) =~= cache_members(url@, etag@, body@));
            assert(members@[0].0@ == "url"@);
            assert(members@[1].0@ == "etag"@);
            assert(members@[2].0@ == "body"@);
        }
        write_json_object(members)
    }
}

/// The version that an index entry offers, if it counts: it is not yanked, its
/// version can be read, and it is a release unless prereleases count too.
pub open spec fn offered(entry: Node, prerelease: bool) -> Option<VersionView> {
    if bool_of(member(entry, "yanked"@)) == Some(true) {
        None
    } else {
        match text_of(member(entry, "vers"@)) {
            None => None,
            Some(raw) => match semver_parsed(raw) {
                Some(version) if version.pre.len() == 0 || prerelease => Some(version),
                _ => None,
            },
        }
    }
}

/// The versions that the lines of an index file offer, in order, or the error
/// for the first line that is not JSON. Blank lines are passed over.
pub open spec fn offered_by(lines: Seq<Seq<char>>, prerelease: bool) -> Result<
    Seq<VersionView>,
    ErrorView,
>
    decreases lines.len(),
{
    if lines.len() == 0 {
        Ok(Seq::empty())
    } else if is_blank(lines.last()) {
        offered_by(lines.drop_last(), prerelease)
    } else {
        match (offered_by(lines.drop_last(), prerelease), json_document(lines.last())) {
            (Err(error), _) => Err(error),
            (Ok(_), Err(message)) => Err(
                ErrorView::Registry("malformed index entry: "@ + message),
            ),
            (Ok(versions), Ok(entry)) => match offered(entry, prerelease) {
                Some(version) => Ok(versions.push(version)),
                None => Ok(versions),
            },
        }
    }
}

/// The first of the newest among `versions`.
pub open spec fn newest(versions: Seq<VersionView>) -> Option<VersionView>
    decreases versions.len(),
{
    if versions.len() == 0 {
        None
    } else {
        match newest(versions.drop_last()) {
            Some(best) if !newer(versions.last(), best) => Some(best),
            _ => Some(versions.last()),
        }
    }
}

/// Whether `best` is one of `versions` and no other of them is newer. Of no
/// versions there is no best one.
pub open spec fn is_highest(best: Option<VersionView>, versions: Seq<VersionView>) -> bool {
    match best {
        Some(best) => {
            &&& versions.contains(best)
            &&& forall|i: int|
                0 <= i < versions.len() ==> versions[i] == best || !newer(
                    #[trigger] versions[i],
                    best,
                )
        },
        None => versions.len() == 0,
    }
}

/// The version that an index entry offers, if it counts.
pub fn offered_version(entry: &Node, prerelease: bool) -> (r: Option<Version>)
    ensures
        opt_view(r) == offered(*entry, prerelease),
        r matches Some(version) ==> is_semver(version@),
{
    if let Some(true) = entry.bool_at("yanked") {
        return None;
    }
    let raw = match entry.text_at("vers") {
        Some(raw) => raw,
        None => return None,
    };
    let version = match Version::parse(raw.as_str()) {
        Some(version) => version,
        None => return None,
    };
    if version.is_prerelease() && !prerelease {
        return None;
    }
    Some(version)
}

/// The newest version in the text of an index file; without a file there is
/// none.
pub open spec fn latest(body: Option<Seq<char>>, prerelease: bool) -> Result<
    Option<VersionView>,
    ErrorView,
> {
    match body {
        Some(body) => match offered_by(lines(body), prerelease) {
            Ok(versions) => Ok(newest(versions)),
            Err(error) => Err(error),
        },
        None => Ok(None),
    }
}

/// The newest version in an index file, or `None` if it offers none.
///
/// Yanked versions do not count, and prereleases only where `prerelease` says
/// so.
pub fn parse_index_body(body: &str, prerelease: bool) -> (r: Result<Option<Version>, Error>)
    ensures
        result_opt_view(r) == latest(Some(body@), prerelease),
        r matches Ok(best) ==> is_highest(opt_view(best), offered_by(lines(body@), prerelease)->Ok_0),
        r matches Ok(best) ==> forall|k: int, version: VersionView|
            0 <= k < lines(body@).len() && !is_blank(lines(body@)[k]) && #[trigger] counts(
                lines(body@)[k],
                prerelease,
                version,
            ) ==> best is Some && (version == best->0@ || !newer(version, best->0@)),
{
    let all = lines_of(body);
    let ghost every = lines(body@);
    let ghost mut seen: Seq<VersionView> = Seq::empty();
    let mut best: Option<Version> = None;
    let mut i: usize = 0;
    assert(every.take(0) =~= Seq::<Seq<char>>::empty());
    while i < all.len()
        invariant
            i <= all@.len(),
            texts(all@) == every,
            every == lines(body@),
            offered_by(every.take(i as int), prerelease) == Ok::<_, ErrorView>(seen),
            opt_view(best) == newest(seen),
            is_highest(opt_view(best), seen),
            forall|j: int| 0 <= j < seen.len() ==> is_semver(#[trigger] seen[j]),
        decreases all@.len() - i,
    {
        let line = all[i].as_str();
        assert(every.take(i + 1).drop_last() =~= every.take(i as int));
        assert(every.take(i + 1).last() == line@);
        if !blank(line) {
            let entry = match parse_json(line) {
                Ok(entry) => entry,
                Err(message) => {
                    proof {
                        lemma_first_error(every, prerelease, i + 1);
                    }
                    return Err(
                        Error::Registry(concat2("malformed index entry: ", message.as_str())),
                    );
                },
            };
            if let Some(version) = offered_version(&entry, prerelease) {
                let ghost before = seen;
                proof {
                    seen = before.push(version@);
                    assert(seen.drop_last() =~= before);
                    assert(seen[before.len() as int] == version@);
                }
                let better = match &best {
                    Some(best) => version.is_newer_than(best),
                    None => true,
                };
                proof {
                    if better {
                        assert forall|j: int| 0 <= j < seen.len() implies seen[j] == version@
                            || !newer(#[trigger] seen[j], version@) by {
                            if j < before.len() {
                                assert(seen[j] == before[j]);
                            }
                        }
                    } else {
                        let k = choose|k: int| 0 <= k < before.len() && before[k] == best->0@;
                        assert(seen[k] == best->0@);
                        assert forall|j: int| 0 <= j < seen.len() implies seen[j] == best->0@
                            || !newer(#[trigger] seen[j], best->0@) by {
                            if j < before.len() {
                                assert(seen[j] == before[j]);
                            }
                        }
                    }
                }
                if better {
                    best = Some(version);
                }
            }
        }
        i = i + 1;
    }
    assert(every.take(i as int) =~= every);
    proof {
        assert forall|k: int, version: VersionView|
            0 <= k < every.len() && !is_blank(every[k]) && #[trigger] counts(
                every[k],
                prerelease,
                version,
            ) implies best is Some && (version == best->0@ || !newer(version, best->0@)) by {
            every_version_that_counts_is_offered(every, prerelease, k, version);
            let at = choose|at: int| 0 <= at < seen.len() && seen[at] == version;
            assert(seen[at] == version);
        }
    }
    Ok(best)
}

/// An error in the first lines is the error of all.
proof fn lemma_first_error(lines: Seq<Seq<char>>, prerelease: bool, n: int)
    requires
        0 <= n <= lines.len(),
        offered_by(lines.take(n), prerelease) is Err,
    ensures
        offered_by(lines, prerelease) == offered_by(lines.take(n), prerelease),
    decreases lines.len() - n,
{
    if n == lines.len() {
        assert(lines.take(n) =~= lines);
    } else {
        assert(lines.take(n + 1).drop_last() =~= lines.take(n));
        lemma_first_error(lines, prerelease, n + 1);
    }
}

/// The newest version that an index offers, given the index file that its
/// registry holds for a crate; `None` when it does not have the crate.
///
/// Prereleases are only considered when the installed version is itself a
/// prerelease, matching what Cargo does on upgrade.
pub fn latest_version(body: Option<String>, prerelease: bool) -> (r: Result<Option<Version>, Error>)
    ensures
        result_opt_view(r) == latest(opt_text(body), prerelease),
{
    match body {
        Some(body) => parse_index_body(body.as_str(), prerelease),
        None => Ok(None),
    }
}

/// The case of a name's ASCII letters does not change where its index file
/// stands.
pub proof fn index_path_ignores_case(name: Seq<char>)
    ensures
        layout(ascii_lowercase(ascii_lowercase(name))) == layout(ascii_lowercase(name)),
{
    assert(ascii_lowercase(ascii_lowercase(name)) =~= ascii_lowercase(name));
}

/// An index file is named after its crate: its path ends with the name.
pub proof fn index_path_ends_with_name(name: Seq<char>)
    ensures
        name.is_suffix_of(layout(name)),
{
    let path = layout(name);
    assert(path.subrange(path.len() - name.len(), path.len() as int) =~= name);
}

/// Whether a line of an index file offers `version`.
pub open spec fn offers(line: Seq<char>, prerelease: bool, version: VersionView) -> bool {
    json_document(line) matches Ok(entry) && offered(entry, prerelease) == Some(version)
}

/// Every version that an index file offers stands in it, on a line that is not
/// yanked; it is a release unless prereleases count.
pub proof fn offered_versions_stand_in_the_file(lines: Seq<Seq<char>>, prerelease: bool)
    ensures
        offered_by(lines, prerelease) matches Ok(versions) ==> forall|i: int|
            0 <= i < versions.len() ==> {
                &&& versions[i].pre.len() == 0 || prerelease
                &&& exists|k: int|
                    0 <= k < lines.len() && offers(
                        #[trigger] lines[k],
                        prerelease,
                        #[trigger] versions[i],
                    ) && bool_of(member(json_document(lines[k])->Ok_0, "yanked"@)) != Some(true)
            },
    decreases lines.len(),
{
    if lines.len() > 0 {
        let before = lines.drop_last();
        offered_versions_stand_in_the_file(before, prerelease);
        if let Ok(versions) = offered_by(lines, prerelease) {
            let earlier = offered_by(before, prerelease)->Ok_0;
            assert forall|i: int| 0 <= i < versions.len() implies {
                &&& versions[i].pre.len() == 0 || prerelease
                &&& exists|k: int|
                    0 <= k < lines.len() && offers(
                        #[trigger] lines[k],
                        prerelease,
                        #[trigger] versions[i],
                    ) && bool_of(member(json_document(lines[k])->Ok_0, "yanked"@)) != Some(true)
            } by {
                if i < earlier.len() {
                    assert(versions[i] == earlier[i]);
                    let k = choose|k: int|
                        0 <= k < before.len() && offers(
                            #[trigger] before[k],
                            prerelease,
                            earlier[i],
                        ) && bool_of(member(json_document(before[k])->Ok_0, "yanked"@)) != Some(
                            true,
                        );
                    assert(lines[k] == before[k]);
                } else {
                    assert(offers(lines[lines.len() - 1], prerelease, versions[i]));
                }
            }
        }
    }
}

} // verus!
