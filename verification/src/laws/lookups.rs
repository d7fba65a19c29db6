//! Laws of index lookups: which versions count, where files stand and what an
//! answer of a registry means.

use vstd::prelude::*;

use crate::error::ErrorView;
use crate::fetch::{
    after_replies, progress, request_headers, waiting_time, LookupView, ProgressView, ReplyView,
};
use crate::index::{
    ascii_lowercase, cache_file_name, cached_in, fnv, latest, layout, newest, offered, offered_by,
    CachedView,
};
use crate::node::{json_document, json_object_written, member, text_of, Node};
use crate::text::{decimal, is_blank, lines};
use crate::version::{newer, semver_parsed, semver_tail_newer, VersionView};

verus! {

/// Whether a line of an index file counts for `version`: it is a JSON entry that
/// is not yanked and has this version, which is a release, or prereleases count.
pub open spec fn counts(line: Seq<char>, prerelease: bool, version: VersionView) -> bool {
    &&& json_document(line) matches Ok(entry)
    &&& member(entry, "yanked"@) != Some(Node::Bool(true))
    &&& member(entry, "vers"@) matches Some(Node::Text(text))
    &&& semver_parsed(text@) == Some(version)
    &&& version.pre.len() == 0 || prerelease
}

/// An entry offers its version exactly if it is not yanked, the version can be
/// read, and it is a release or prereleases count. A release counts in any case.
pub proof fn entry_offers_what_counts(entry: Node, prerelease: bool, version: VersionView)
    ensures
        (offered(entry, prerelease) == Some(version)) == ({
            &&& member(entry, "yanked"@) != Some(Node::Bool(true))
            &&& member(entry, "vers"@) matches Some(Node::Text(text))
            &&& semver_parsed(text@) == Some(version)
            &&& version.pre.len() == 0 || prerelease
        }),
        version.pre.len() == 0 ==> (offered(entry, false) == Some(version)) == (offered(
            entry,
            true,
        ) == Some(version)),
        offered(entry, false) is Some ==> offered(entry, true) == offered(entry, false),
{
}

/// Nothing that counts is left out: the version of each line that is not blank,
/// is not yanked and can be read is offered, if it is a release or prereleases
/// count. What is offered stands on such a line.
pub proof fn every_version_that_counts_is_offered(
    all: Seq<Seq<char>>,
    prerelease: bool,
    k: int,
    version: VersionView,
)
    requires
        0 <= k < all.len(),
        !is_blank(all[k]),
        counts(all[k], prerelease, version),
    ensures
        offered_by(all, prerelease) matches Ok(versions) ==> versions.contains(version),
    decreases all.len(),
{
    let before = all.drop_last();
    if let Ok(versions) = offered_by(all, prerelease) {
        if k < before.len() {
            every_version_that_counts_is_offered(before, prerelease, k, version);
            let earlier = offered_by(before, prerelease)->Ok_0;
            let i = choose|i: int| 0 <= i < earlier.len() && earlier[i] == version;
            assert(versions[i] == version);
        } else {
            assert(versions[versions.len() - 1] == version);
        }
    }
}

/// The versions of two parts of a file are those of the first part and then those
/// of the second; a blank line offers nothing, another one its version if it
/// counts, and a line that is not JSON is an error that says so.
pub proof fn lines_offer_in_turn(
    first: Seq<Seq<char>>,
    second: Seq<Seq<char>>,
    line: Seq<char>,
    prerelease: bool,
)
    ensures
        offered_by(first + second, prerelease) == match (
            offered_by(first, prerelease),
            offered_by(second, prerelease),
        ) {
            (Err(error), _) => Err(error),
            (Ok(_), Err(error)) => Err(error),
            (Ok(earlier), Ok(later)) => Ok(earlier + later),
        },
        offered_by(seq![line], prerelease) == if is_blank(line) {
            Ok::<Seq<VersionView>, ErrorView>(Seq::empty())
        } else {
            match json_document(line) {
                Err(message) => Err(ErrorView::Registry("malformed index entry: "@ + message)),
                Ok(entry) => match offered(entry, prerelease) {
                    Some(version) => Ok(seq![version]),
                    None => Ok(Seq::empty()),
                },
            }
        },
    decreases second.len(),
{
    let none = Seq::<Seq<char>>::empty();
    assert(seq![line].drop_last() =~= none);
    assert(offered_by(none, prerelease) == Ok::<Seq<VersionView>, ErrorView>(Seq::empty()));
    assert(seq![line].last() == line);
    if let Ok(entry) = json_document(line) {
        if let Some(version) = offered(entry, prerelease) {
            assert(Seq::<VersionView>::empty().push(version) =~= seq![version]);
        }
    }
    if second.len() == 0 {
        assert(first + second =~= first);
        assert(second =~= none);
        if let Ok(earlier) = offered_by(first, prerelease) {
            assert(earlier + Seq::<VersionView>::empty() =~= earlier);
        }
    } else {
        lines_offer_in_turn(first, second.drop_last(), line, prerelease);
        assert((first + second).drop_last() =~= first + second.drop_last());
        assert((first + second).last() == second.last());
        if let (Ok(earlier), Ok(later)) = (
            offered_by(first, prerelease),
            offered_by(second.drop_last(), prerelease),
        ) {
            if let Ok(entry) = json_document(second.last()) {
                if let Some(version) = offered(entry, prerelease) {
                    assert((earlier + later).push(version) =~= earlier + later.push(version));
                }
            }
        }
    }
}

/// Whether being newer is an order on some versions: it goes one way only, and
/// carries over from one pair to the next.
pub open spec fn ordered_versions(versions: Seq<VersionView>) -> bool {
    &&& forall|i: int, j: int|
        0 <= i < versions.len() && 0 <= j < versions.len() && #[trigger] newer(
            versions[i],
            versions[j],
        ) ==> !newer(versions[j], versions[i])
    &&& forall|i: int, j: int, k: int|
        0 <= i < versions.len() && 0 <= j < versions.len() && 0 <= k < versions.len()
            && #[trigger] newer(versions[i], versions[j]) && #[trigger] newer(
            versions[j],
            versions[k],
        ) ==> newer(versions[i], versions[k])
}

/// The newest version is one of those that are offered, and none of them is
/// newer, as long as newer is an order on them. It is there if any is offered.
pub proof fn newest_is_not_older_than_any(versions: Seq<VersionView>)
    requires
        ordered_versions(versions),
    ensures
        versions.len() == 0 ==> newest(versions) is None,
        versions.len() > 0 ==> newest(versions) is Some && versions.contains(newest(versions)->0),
        newest(versions) matches Some(best) ==> forall|i: int|
            0 <= i < versions.len() ==> !newer(#[trigger] versions[i], best),
    decreases versions.len(),
{
    if versions.len() > 0 {
        let before = versions.drop_last();
        let last = versions.last();
        let n = before.len() as int;
        assert(ordered_versions(before)) by {
            assert forall|i: int, j: int|
                0 <= i < before.len() && 0 <= j < before.len() && #[trigger] newer(
                    before[i],
                    before[j],
                ) implies !newer(before[j], before[i]) by {
                assert(newer(versions[i], versions[j]));
            }
            assert forall|i: int, j: int, k: int|
                0 <= i < before.len() && 0 <= j < before.len() && 0 <= k < before.len()
                    && #[trigger] newer(before[i], before[j]) && #[trigger] newer(
                    before[j],
                    before[k],
                ) implies newer(before[i], before[k]) by {
                assert(newer(versions[i], versions[j]) && newer(versions[j], versions[k]));
            }
        }
        newest_is_not_older_than_any(before);
        assert(versions[n] == last);
        if n > 0 {
            let earlier = newest(before)->0;
            let at = choose|at: int| 0 <= at < before.len() && before[at] == earlier;
            assert(versions[at] == earlier);
            let best = newest(versions)->0;
            assert forall|i: int| 0 <= i < versions.len() implies !newer(
                #[trigger] versions[i],
                best,
            ) by {
                if newer(last, earlier) {
                    if newer(versions[i], last) {
                        assert(newer(versions[n], versions[at]));
                        assert(newer(versions[i], versions[n]));
                        if i < n {
                            assert(newer(versions[i], versions[at]));
                            assert(!newer(before[i], earlier));
                        }
                    }
                } else if i < n {
                    assert(!newer(before[i], earlier));
                }
            }
        } else {
            assert(newest(versions) == Some(last));
            assert forall|i: int| 0 <= i < versions.len() implies !newer(
                #[trigger] versions[i],
                last,
            ) by {
                if newer(versions[i], last) {
                    assert(newer(versions[0], versions[0]));
                }
            }
        }
    }
}

/// The newest version that an index file offers is not older than the version of
/// any line that counts: one is found where a line counts, whatever the others
/// say. Without a file there is none.
pub proof fn newest_version_is_found(
    body: Seq<char>,
    prerelease: bool,
    k: int,
    version: VersionView,
)
    requires
        offered_by(lines(body), prerelease) is Ok,
        ordered_versions(offered_by(lines(body), prerelease)->Ok_0),
        0 <= k < lines(body).len(),
        !is_blank(lines(body)[k]),
        counts(lines(body)[k], prerelease, version),
    ensures
        latest(Some(body), prerelease) matches Ok(Some(best)) && !newer(version, best),
        latest(None, prerelease) == Ok::<Option<VersionView>, ErrorView>(None),
{
    every_version_that_counts_is_offered(lines(body), prerelease, k, version);
    let versions = offered_by(lines(body), prerelease)->Ok_0;
    newest_is_not_older_than_any(versions);
    let i = choose|i: int| 0 <= i < versions.len() && versions[i] == version;
    assert(versions[i] == version);
}

/// A file with a line that is neither blank nor JSON gives an error, and so says
/// nothing about versions; the first such line is the one that is reported.
pub proof fn malformed_lines_are_errors(
    before: Seq<Seq<char>>,
    line: Seq<char>,
    after: Seq<Seq<char>>,
    prerelease: bool,
)
    requires
        forall|i: int|
            0 <= i < before.len() ==> is_blank(#[trigger] before[i]) || json_document(
                before[i],
            ) is Ok,
        !is_blank(line),
        json_document(line) is Err,
    ensures
        offered_by(before, prerelease) is Ok,
        offered_by(before + seq![line] + after, prerelease) == Err::<Seq<VersionView>, ErrorView>(
            ErrorView::Registry("malformed index entry: "@ + json_document(line)->Err_0),
        ),
{
    lemma_readable(before, prerelease);
    lines_offer_in_turn(before, seq![line], line, prerelease);
    lines_offer_in_turn(before + seq![line], after, line, prerelease);
}

proof fn lemma_readable(all: Seq<Seq<char>>, prerelease: bool)
    requires
        forall|i: int|
            0 <= i < all.len() ==> is_blank(#[trigger] all[i]) || json_document(all[i]) is Ok,
    ensures
        offered_by(all, prerelease) is Ok,
    decreases all.len(),
{
    if all.len() > 0 {
        let before = all.drop_last();
        assert forall|i: int| 0 <= i < before.len() implies is_blank(#[trigger] before[i])
            || json_document(before[i]) is Ok by {
            assert(before[i] == all[i]);
        }
        assert(all[all.len() - 1] == all.last());
        lemma_readable(before, prerelease);
    }
}

/// Of two versions the first number in which they differ decides; with the same
/// numbers a release is newer than a prerelease, and of two releases or two
/// prereleases what follows the numbers decides.
pub proof fn numbers_decide_first(left: VersionView, right: VersionView)
    ensures
        left.major > right.major ==> newer(left, right) && !newer(right, left),
        left.major == right.major && left.minor > right.minor ==> newer(left, right) && !newer(
            right,
            left,
        ),
        left.major == right.major && left.minor == right.minor && left.patch > right.patch
            ==> newer(left, right) && !newer(right, left),
        left.major == right.major && left.minor == right.minor && left.patch == right.patch
            && left.pre.len() == 0 && right.pre.len() > 0 ==> newer(left, right) && !newer(
            right,
            left,
        ),
        left.major == right.major && left.minor == right.minor && left.patch == right.patch && (
        left.pre.len() == 0) == (right.pre.len() == 0) ==> newer(left, right) == semver_tail_newer(
            left.pre,
            left.build,
            right.pre,
            right.build,
        ),
{
}

/// An index file stands in a directory for the length of its name: short names
/// by their length, longer ones by their first two and next two letters.
pub proof fn files_stand_by_length(name: Seq<char>, a: char, b: char, c: char, d: char)
    requires
        vstd::utf8::is_ascii_chars(seq![a, b, c, d] + name),
    ensures
        layout(seq![a]) == seq!['1', '/', a],
        layout(seq![a, b]) == seq!['2', '/', a, b],
        layout(seq![a, b, c]) == seq!['3', '/', a, '/', a, b, c],
        layout(seq![a, b, c, d] + name) == seq![a, b, '/', c, d, '/', a, b, c, d] + name,
{
    reveal_strlit("1/");
    reveal_strlit("2/");
    reveal_strlit("3/");
    reveal_strlit("/");
    let all = seq![a, b, c, d] + name;
    assert forall|i: int| 0 <= i < 4 implies vstd::utf8::is_ascii_chars(seq![all[i]]) by {
        assert(vstd::utf8::is_ascii_chars(all));
    }
    assert(all[0] == a && all[1] == b && all[2] == c && all[3] == d);
    assert(vstd::utf8::is_ascii_chars(seq![a]));
    assert(vstd::utf8::is_ascii_chars(seq![a, b]));
    assert(vstd::utf8::is_ascii_chars(seq![a, b, c]));
    assert(layout(seq![a]) =~= seq!['1', '/', a]);
    assert(layout(seq![a, b]) =~= seq!['2', '/', a, b]);
    assert(layout(seq![a, b, c]) =~= seq!['3', '/', a, '/', a, b, c]);
    assert(layout(all) =~= seq![a, b, '/', c, d, '/', a, b, c, d] + name);
}

/// A name is looked for with its capitals made small and nothing else changed.
pub proof fn names_are_looked_for_in_small_letters(name: Seq<char>, i: int)
    requires
        0 <= i < name.len(),
    ensures
        ascii_lowercase(name).len() == name.len(),
        'A' <= name[i] <= 'Z' ==> ascii_lowercase(name)[i] as u32 == name[i] as u32 + 32,
        !('A' <= name[i] <= 'Z') ==> ascii_lowercase(name)[i] == name[i],
{
}

/// A cache document holds something for a URL exactly if it has this URL and a
/// body, both texts. The tag is its text under `etag`, if there is one.
pub proof fn documents_hold_one_url(document: Node, url: Seq<char>, stored: CachedView)
    ensures
        (cached_in(document, url) == Some(stored)) == ({
            &&& text_of(member(document, "url"@)) == Some(url)
            &&& text_of(member(document, "body"@)) == Some(stored.body)
            &&& text_of(member(document, "etag"@)) == stored.etag
        }),
        text_of(member(document, "url"@)) != Some(url) ==> cached_in(document, url) is None,
        text_of(member(document, "body"@)) is None ==> cached_in(document, url) is None,
{
}

/// The hash of bytes starts at the FNV offset, and each byte is mixed in and
/// multiplied with the FNV prime, in sixty-four bits.
pub proof fn hash_mixes_in_each_byte(bytes: Seq<u8>, byte: u8)
    ensures
        fnv(Seq::empty()) == 14695981039346656037u64,
        fnv(bytes.push(byte)) as int == ((fnv(bytes) ^ (byte as u64)) as int * 1099511628211)
            % 18446744073709551616,
{
    assert(bytes.push(byte).drop_last() =~= bytes);
}

/// A cache file is named by the hash of its URL in sixteen digits.
pub proof fn cache_files_are_named_by_hash(url: Seq<char>)
    ensures
        cache_file_name(url).len() == 21,
        cache_file_name(url).skip(16) == ".json"@,
        crate::laws::texts::value_of(cache_file_name(url).take(16), 16) == fnv(
            vstd::utf8::encode_utf8(url),
        ),
{
    let hash = fnv(vstd::utf8::encode_utf8(url)) as nat;
    reveal_strlit(".json");
    assert(vstd::arithmetic::power::pow(16, 16) == 18446744073709551616) by {
        reveal_with_fuel(vstd::arithmetic::power::pow, 17);
    }
    crate::laws::texts::hex_stands_for_its_number(hash, 16);
    assert(cache_file_name(url).take(16) =~= crate::text::hex(hash, 16));
    assert(cache_file_name(url).skip(16) =~= ".json"@);
}

/// What a lookup does when an attempt went wrong in a way that may pass: it asks
/// again, up to three times in all. After that the cached file is used, with a
/// warning, or what went wrong is the error.
pub open spec fn tries_again(lookup: LookupView, message: Seq<char>) -> ProgressView {
    if lookup.attempt < 2 {
        ProgressView::Again(
            LookupView {
                url: lookup.url,
                token: lookup.token,
                cached: lookup.cached,
                attempt: lookup.attempt + 1,
            },
        )
    } else {
        match lookup.cached {
            Some(cached) => ProgressView::Finished {
                result: Ok(Some(cached.body)),
                store: None,
                warning: Some(message + "; using cached index"@),
            },
            None => ProgressView::Finished {
                result: Err(ErrorView::Registry(message)),
                store: None,
                warning: None,
            },
        }
    }
}

/// A lookup that is over, with nothing to store and nothing to warn of.
pub open spec fn over_with(result: Result<Option<Seq<char>>, ErrorView>) -> ProgressView {
    ProgressView::Finished { result, store: None, warning: None }
}

/// What each answer does to a lookup. A file is the result and is stored with its
/// tag. A file that is not there is no error. A registry that refuses, or answers
/// with a status that does not pass, is one. A file that was not modified is the
/// cached one. A timeout, too many requests, a server that fails and a broken
/// connection may pass.
pub proof fn answers_mean_this(
    lookup: LookupView,
    etag: Seq<char>,
    body: Seq<char>,
    message: Seq<char>,
    code: u16,
)
    ensures
        progress(lookup, ReplyView::Body { etag: Some(etag), body }) == (ProgressView::Finished {
            result: Ok(Some(body)),
            store: Some(
                json_object_written(seq![("url"@, lookup.url), ("etag"@, etag), ("body"@, body)]),
            ),
            warning: None,
        }),
        progress(lookup, ReplyView::Body { etag: None, body }) == over_with(Ok(Some(body))),
        progress(lookup, ReplyView::Unreadable(message)) == over_with(
            Err(ErrorView::Registry(message)),
        ),
        progress(lookup, ReplyView::Failed(message)) == tries_again(lookup, message),
        progress(lookup, ReplyView::Status(404)) == over_with(Ok(None)),
        code == 401 || code == 403 ==> progress(lookup, ReplyView::Status(code)) == over_with(
            Err(ErrorView::Registry("registry authentication failed for "@ + lookup.url)),
        ),
        progress(lookup, ReplyView::Status(304)) == (match lookup.cached {
            Some(cached) => over_with(Ok(Some(cached.body))),
            None => tries_again(lookup, "received HTTP 304 without a cache entry"@),
        }),
        code == 408 || code == 429 || 500 <= code < 600 ==> progress(
            lookup,
            ReplyView::Status(code),
        ) == tries_again(lookup, "HTTP "@ + decimal(code as nat) + " from "@ + lookup.url),
        !(code == 304 || code == 401 || code == 403 || code == 404 || code == 408 || code == 429
            || 500 <= code < 600) ==> progress(lookup, ReplyView::Status(code)) == over_with(
            Err(ErrorView::Registry("HTTP "@ + decimal(code as nat) + " from "@ + lookup.url)),
        ),
{
}

/// Replies are taken one after another, until the lookup is over.
pub proof fn replies_are_taken_in_turn(lookup: LookupView, reply: ReplyView, rest: Seq<ReplyView>)
    ensures
        after_replies(lookup, Seq::empty()) == ProgressView::Again(lookup),
        after_replies(lookup, seq![reply] + rest) == match progress(lookup, reply) {
            ProgressView::Again(next) => after_replies(next, rest),
            finished => finished,
        },
{
    assert((seq![reply] + rest).skip(1) =~= rest);
}

/// A request asks for text; it carries the token where there is one, and the tag
/// of the cached file where there is one, and nothing else.
pub proof fn requests_carry_token_and_tag(
    lookup: LookupView,
    token: Seq<char>,
    etag: Seq<char>,
    body: Seq<char>,
)
    ensures
        ({
            let accept = ("Accept"@, "text/plain"@);
            let plain = LookupView { token: None, cached: None, ..lookup };
            let cached = Some(CachedView { etag: Some(etag), body });
            &&& request_headers(plain) == seq![accept]
            &&& request_headers(LookupView { token: Some(token), ..plain }) == seq![
                accept,
                ("Authorization"@, token),
            ]
            &&& request_headers(LookupView { cached, ..plain }) == seq![
                accept,
                ("If-None-Match"@, etag),
            ]
            &&& request_headers(LookupView { token: Some(token), cached, ..plain }) == seq![
                accept,
                ("Authorization"@, token),
                ("If-None-Match"@, etag),
            ]
            &&& request_headers(
                LookupView { cached: Some(CachedView { etag: None, body }), ..lookup },
            ) == request_headers(LookupView { cached: None, ..lookup })
        }),
{
    let accept = ("Accept"@, "text/plain"@);
    let plain = LookupView { token: None, cached: None, ..lookup };
    let cached = Some(CachedView { etag: Some(etag), body });
    assert(request_headers(LookupView { token: Some(token), ..plain }) =~= seq![
        accept,
        ("Authorization"@, token),
    ]);
    assert(request_headers(LookupView { cached, ..plain }) =~= seq![
        accept,
        ("If-None-Match"@, etag),
    ]);
    assert(request_headers(LookupView { token: Some(token), cached, ..plain }) =~= seq![
        accept,
        ("Authorization"@, token),
        ("If-None-Match"@, etag),
    ]);
}

/// The first request is made at once, the second waits a fifth of a second, and
/// each later one twice as long as the one before it.
pub proof fn waiting_doubles(attempt: nat)
    requires
        attempt > 0,
    ensures
        waiting_time(0) == 0,
        waiting_time(1) == 200,
        waiting_time(attempt + 1) == 2 * waiting_time(attempt),
{
    vstd::arithmetic::power2::lemma2_to64();
    vstd::arithmetic::power2::lemma_pow2_unfold(attempt);
    let earlier = vstd::arithmetic::power2::pow2((attempt - 1) as nat);
    assert(200 * (2 * earlier) == 2 * (200 * earlier)) by (nonlinear_arith);
}

} // verus!
