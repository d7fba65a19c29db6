//! How an index file is asked for: the headers of a request, what each reply
//! means, when to try again and when to fall back on the cache.

use vstd::arithmetic::power2::pow2;
use vstd::prelude::*;

use crate::error::{opt_view, result_opt_view, Error, ErrorView};
use crate::index::{cache_text, cached_text, Cached, CachedView, IndexCache};
use crate::text::{concat2, concat3, decimal, decimal_text, opt_text};

verus! {

/// How often an index file is asked for before the lookup gives up.
pub const MAX_ATTEMPTS: u32 = 3;

/// How long the second attempt waits, in milliseconds. Each later one waits
/// twice as long as the one before it.
pub const RETRY_BASE: u64 = 200;

/// Whether a request that got this status may do better later: it took too
/// long, there were too many, or the server failed.
pub open spec fn retryable(code: u16) -> bool {
    code == 408 || code == 429 || 500 <= code <= 599
}

/// Whether a request that got this status may do better later.
pub fn is_retryable_status(code: u16) -> (r: bool)
    ensures
        r == retryable(code),
{
    code == 408 || code == 429 || (500 <= code && code <= 599)
}

/// What came back for a request.
#[derive(Debug)]
pub enum Reply {
    /// A file, with its entity tag where it has one.
    Body { etag: Option<String>, body: String },
    /// A file that came but cannot be used, such as one that is too long, and
    /// why.
    Unreadable(String),
    /// A status other than success.
    Status(u16),
    /// No answer, or one that broke off, and why.
    Failed(String),
}

/// The value of a [`Reply`].
pub enum ReplyView {
    /// See [`Reply::Body`].
    Body { etag: Option<Seq<char>>, body: Seq<char> },
    /// See [`Reply::Unreadable`].
    Unreadable(Seq<char>),
    /// See [`Reply::Status`].
    Status(u16),
    /// See [`Reply::Failed`].
    Failed(Seq<char>),
}

impl View for Reply {
    type V = ReplyView;

    open spec fn view(&self) -> ReplyView {
        match *self {
            Reply::Body { etag, body } => ReplyView::Body { etag: opt_text(etag), body: body@ },
            Reply::Unreadable(message) => ReplyView::Unreadable(message@),
            Reply::Status(code) => ReplyView::Status(code),
            Reply::Failed(message) => ReplyView::Failed(message@),
        }
    }
}

/// What a reply means.
pub enum Meaning {
    /// The lookup is over with this result.
    Final(Result<Option<Seq<char>>, ErrorView>),
    /// Another attempt may do better; this is what went wrong.
    Passing(Seq<char>),
}

/// The message for a status that is an error.
pub open spec fn status_message(code: u16, url: Seq<char>) -> Seq<char> {
    "HTTP "@ + decimal(code as nat) + " from "@ + url
}

/// What a reply to a request for `url` means, given what the cache holds.
pub open spec fn meaning(url: Seq<char>, cached: Option<CachedView>, reply: ReplyView) -> Meaning {
    match reply {
        ReplyView::Body { etag, body } => Meaning::Final(Ok(Some(body))),
        ReplyView::Unreadable(message) => Meaning::Final(Err(ErrorView::Registry(message))),
        ReplyView::Failed(message) => Meaning::Passing(message),
        ReplyView::Status(code) => if code == 304 {
            match cached {
                Some(cached) => Meaning::Final(Ok(Some(cached.body))),
                None => Meaning::Passing("received HTTP 304 without a cache entry"@),
            }
        } else if code == 404 {
            Meaning::Final(Ok(None))
        } else if code == 401 || code == 403 {
            Meaning::Final(
                Err(ErrorView::Registry("registry authentication failed for "@ + url)),
            )
        } else if retryable(code) {
            Meaning::Passing(status_message(code, url))
        } else {
            Meaning::Final(Err(ErrorView::Registry(status_message(code, url))))
        },
    }
}

/// The document to store after a reply: a file that came with an entity tag is
/// kept.
pub open spec fn stored_after(url: Seq<char>, reply: ReplyView) -> Option<Seq<char>> {
    match reply {
        ReplyView::Body { etag: Some(etag), body } => Some(cache_text(url, etag, body)),
        _ => None,
    }
}

/// A lookup of one index file.
#[derive(Debug)]
pub struct Lookup {
    url: String,
    token: Option<String>,
    cached: Option<Cached>,
    attempt: u32,
}

/// The value of a [`Lookup`].
pub struct LookupView {
    /// The file's URL.
    pub url: Seq<char>,
    /// The token to send.
    pub token: Option<Seq<char>>,
    /// What the cache holds for the URL.
    pub cached: Option<CachedView>,
    /// How many attempts have failed.
    pub attempt: nat,
}

impl View for Lookup {
    type V = LookupView;

    closed spec fn view(&self) -> LookupView {
        LookupView {
            url: self.url@,
            token: opt_text(self.token),
            cached: opt_view(self.cached),
            attempt: self.attempt as nat,
        }
    }
}

/// What a lookup does after a reply.
#[derive(Debug)]
pub enum Progress {
    /// It asks again.
    Again(Lookup),
    /// It is over.
    Finished {
        /// The index file, or `None` when the registry does not have it.
        result: Result<Option<String>, Error>,
        /// The document to store in the cache.
        store: Option<String>,
        /// A warning to print.
        warning: Option<String>,
    },
}

/// The value of [`Progress`].
pub enum ProgressView {
    /// See [`Progress::Again`].
    Again(LookupView),
    /// See [`Progress::Finished`].
    Finished {
        result: Result<Option<Seq<char>>, ErrorView>,
        store: Option<Seq<char>>,
        warning: Option<Seq<char>>,
    },
}

impl View for Progress {
    type V = ProgressView;

    open spec fn view(&self) -> ProgressView {
        match *self {
            Progress::Again(lookup) => ProgressView::Again(lookup@),
            Progress::Finished { result, store, warning } => ProgressView::Finished {
                result: result_opt_view(result),
                store: opt_text(store),
                warning: opt_text(warning),
            },
        }
    }
}

/// What a lookup does after a reply. When the last attempt fails in a way that
/// may pass, a cached file is used in place of a fresh one, with a warning.
pub open spec fn progress(lookup: LookupView, reply: ReplyView) -> ProgressView {
    match meaning(lookup.url, lookup.cached, reply) {
        Meaning::Final(result) => ProgressView::Finished {
            result,
            store: stored_after(lookup.url, reply),
            warning: None,
        },
        Meaning::Passing(message) => if lookup.attempt + 1 < MAX_ATTEMPTS {
            ProgressView::Again(LookupView { attempt: lookup.attempt + 1, ..lookup })
        } else {
            match lookup.cached {
                Some(cached) => ProgressView::Finished {
                    result: Ok(Some(cached.body)),
                    store: None,
                    warning: Some(message + "; using cached index"@),
                },
                None => ProgressView::Finished {
                    result: Err(ErrorView::Registry(message)),
                    store: None,
                    warning: None,
                },
            }
        },
    }
}

/// The headers of a request.
pub open spec fn request_headers(lookup: LookupView) -> Seq<(Seq<char>, Seq<char>)> {
    let accept = seq![("Accept"@, "text/plain"@)];
    let authorized = match lookup.token {
        Some(token) => accept.push(("Authorization"@, token)),
        None => accept,
    };
    match lookup.cached {
        Some(CachedView { etag: Some(etag), body }) => authorized.push(("If-None-Match"@, etag)),
        _ => authorized,
    }
}

/// How long a lookup waits before its next request, in milliseconds.
pub open spec fn waiting_time(attempt: nat) -> nat {
    if attempt == 0 {
        0
    } else {
        RETRY_BASE as nat * pow2((attempt - 1) as nat)
    }
}

/// The names and values of a list of headers.
pub open spec fn header_texts(headers: Seq<(String, String)>) -> Seq<(Seq<char>, Seq<char>)> {
    Seq::new(headers.len(), |i: int| (headers[i].0@, headers[i].1@))
}

impl Lookup {
    #[verifier::type_invariant]
    spec fn well_formed(self) -> bool {
        self.attempt < MAX_ATTEMPTS
    }

    /// A lookup of the index file at `url`, with what the cache holds for it.
    pub fn new(url: String, token: Option<String>, cached: Option<Cached>) -> (r: Self)
        ensures
            r@ == (LookupView {
                url: url@,
                token: opt_text(token),
                cached: opt_view(cached),
                attempt: 0,
            }),
    {
        Lookup { url, token, cached, attempt: 0 }
    }

    /// The URL to ask.
    pub fn url(&self) -> (r: &str)
        ensures
            r@ == self@.url,
    {
        self.url.as_str()
    }

    /// The headers of the next request.
    pub fn headers(&self) -> (r: Vec<(String, String)>)
        ensures
            header_texts(r@) == request_headers(self@),
    {
        let mut headers: Vec<(String, String)> = Vec::new();
        headers.push(("Accept".to_string(), "text/plain".to_string()));
        if let Some(token) = &self.token {
            headers.push(("Authorization".to_string(), token.clone()));
        }
        if let Some(cached) = &self.cached {
            if let Some(etag) = &cached.etag {
                headers.push(("If-None-Match".to_string(), etag.clone()));
            }
        }
        assert(header_texts(headers@) =~= request_headers(self@));
        headers
    }

    /// How long to wait before the next request, in milliseconds.
    pub fn delay(&self) -> (r: u64)
        ensures
            r == waiting_time(self@.attempt),
    {
        proof {
            use_type_invariant(self);
            vstd::arithmetic::power2::lemma2_to64();
        }
        if self.attempt == 0 {
            0
        } else if self.attempt == 1 {
            RETRY_BASE
        } else {
            2 * RETRY_BASE
        }
    }

    /// Takes the reply to a request. A file that is stored is what the cache
    /// holds for the URL from then on.
    pub fn step(self, reply: Reply, cache: &IndexCache) -> (r: Progress)
        ensures
            r@ == progress(self@, reply@),
            r matches Progress::Finished { store: Some(text), .. } ==> {
                &&& reply@ matches ReplyView::Body { etag, body }
                &&& cached_text(text@, self@.url) == Some(CachedView { etag, body })
            },
    {
        proof {
            use_type_invariant(&self);
        }
        let ghost at = self@;
        let message = match reply {
            Reply::Body { etag, body } => {
                let store = match &etag {
                    Some(etag) => Some(cache.put(self.url.as_str(), etag.as_str(), body.as_str())),
                    None => None,
                };
                return Progress::Finished { result: Ok(Some(body)), store, warning: None };
            },
            Reply::Unreadable(message) => return finished(Err(Error::Registry(message))),
            Reply::Failed(message) => message,
            Reply::Status(code) => {
                if code == 304 {
                    if let Some(cached) = self.cached {
                        return finished(Ok(Some(cached.body)));
                    }
                    "received HTTP 304 without a cache entry".to_string()
                } else if code == 404 {
                    return finished(Ok(None));
                } else if code == 401 || code == 403 {
                    return finished(
                        Err(
                            Error::Registry(
                                concat2("registry authentication failed for ", self.url.as_str()),
                            ),
                        ),
                    );
                } else {
                    let mut text = concat3("HTTP ", decimal_text(code as u64).as_str(), " from ");
                    text.append(self.url.as_str());
                    assert(text@ == status_message(code, self@.url));
                    if !is_retryable_status(code) {
                        return finished(Err(Error::Registry(text)));
                    }
                    text
                }
            },
        };
        if self.attempt + 1 < MAX_ATTEMPTS {
            Progress::Again(
                Lookup {
                    url: self.url,
                    token: self.token,
                    cached: self.cached,
                    attempt: self.attempt + 1,
                },
            )
        } else {
            match self.cached {
                Some(cached) => Progress::Finished {
                    result: Ok(Some(cached.body)),
                    store: None,
                    warning: Some(concat2(message.as_str(), "; using cached index")),
                },
                None => finished(Err(Error::Registry(message))),
            }
        }
    }
}

/// A lookup that is over, with nothing to store or print.
fn finished(result: Result<Option<String>, Error>) -> (r: Progress)
    ensures
        r@ == (ProgressView::Finished {
            result: result_opt_view(result),
            store: None,
            warning: None,
        }),
        r matches Progress::Finished { store, .. } && store is None,
{
    Progress::Finished { result, store: None, warning: None }
}

/// Where a lookup stands when it has got the given replies, one after another.
/// Replies that come after its end do not count.
pub open spec fn after_replies(lookup: LookupView, replies: Seq<ReplyView>) -> ProgressView
    decreases replies.len(),
{
    if replies.len() == 0 {
        ProgressView::Again(lookup)
    } else {
        match progress(lookup, replies[0]) {
            ProgressView::Again(next) => after_replies(next, replies.skip(1)),
            over => over,
        }
    }
}

/// Whether every reply leaves hope that a later attempt does better.
pub open spec fn all_passing(lookup: LookupView, replies: Seq<ReplyView>) -> bool {
    forall|i: int|
        0 <= i < replies.len() ==> meaning(
            lookup.url,
            lookup.cached,
            #[trigger] replies[i],
        ) is Passing
}

/// A lookup makes at most [`MAX_ATTEMPTS`] requests, whatever the replies are.
pub proof fn lookup_ends(lookup: LookupView, replies: Seq<ReplyView>)
    requires
        lookup.attempt < MAX_ATTEMPTS,
        lookup.attempt + replies.len() >= MAX_ATTEMPTS,
    ensures
        after_replies(lookup, replies) is Finished,
    decreases replies.len(),
{
    match progress(lookup, replies[0]) {
        ProgressView::Again(next) => {
            lookup_ends(next, replies.skip(1));
        },
        _ => {},
    }
}

/// When every attempt fails in a way that may pass, a cached file is the
/// result, with a warning that tells what went wrong last. Without one, the
/// last failure is the error.
pub proof fn stale_cache_is_the_fallback(lookup: LookupView, replies: Seq<ReplyView>)
    requires
        lookup.attempt < MAX_ATTEMPTS,
        lookup.attempt + replies.len() == MAX_ATTEMPTS,
        all_passing(lookup, replies),
    ensures
        after_replies(lookup, replies) == (match (
            lookup.cached,
            meaning(lookup.url, lookup.cached, replies.last())->Passing_0,
        ) {
            (Some(cached), message) => ProgressView::Finished {
                result: Ok(Some(cached.body)),
                store: None,
                warning: Some(message + "; using cached index"@),
            },
            (None, message) => ProgressView::Finished {
                result: Err(ErrorView::Registry(message)),
                store: None,
                warning: None,
            },
        }),
    decreases replies.len(),
{
    assert(meaning(lookup.url, lookup.cached, replies[0]) is Passing);
    if replies.len() > 1 {
        let next = LookupView { attempt: lookup.attempt + 1, ..lookup };
        assert forall|i: int| 0 <= i < replies.skip(1).len() implies meaning(
            next.url,
            next.cached,
            #[trigger] replies.skip(1)[i],
        ) is Passing by {
            assert(replies.skip(1)[i] == replies[i + 1]);
        }
        stale_cache_is_the_fallback(next, replies.skip(1));
        assert(replies.skip(1).last() == replies.last());
    }
}

/// Whether a reply refuses a request for good: the registry does not let it
/// through, answers with a status that does not pass, or sends a file that
/// cannot be used.
pub open spec fn refuses(reply: ReplyView) -> bool {
    match reply {
        ReplyView::Status(code) => !retryable(code) && code != 304 && code != 404,
        ReplyView::Unreadable(_) => true,
        _ => false,
    }
}

/// Neither a network failure nor a status that may pass makes a lookup fail while
/// the cache holds the file: only a refusal does.
pub proof fn cached_lookup_survives_passing_failures(lookup: LookupView, replies: Seq<ReplyView>)
    requires
        lookup.cached is Some,
        forall|i: int| 0 <= i < replies.len() ==> !refuses(#[trigger] replies[i]),
    ensures
        after_replies(lookup, replies) matches ProgressView::Finished { result, .. } ==> result
            is Ok,
    decreases replies.len(),
{
    if replies.len() > 0 {
        assert(!refuses(replies[0]));
        match progress(lookup, replies[0]) {
            ProgressView::Again(next) => {
                assert forall|i: int| 0 <= i < replies.skip(1).len() implies !refuses(
                    #[trigger] replies.skip(1)[i],
                ) by {
                    assert(replies.skip(1)[i] == replies[i + 1]);
                }
                cached_lookup_survives_passing_failures(next, replies.skip(1));
            },
            _ => {},
        }
    }
}

/// An entity tag is only sent along with a cached file, so that the answer 304
/// always finds one.
pub proof fn conditional_request_has_a_cached_file(lookup: LookupView)
    ensures
        (exists|i: int|
            0 <= i < request_headers(lookup).len() && (#[trigger] request_headers(lookup)[i]).0
                == "If-None-Match"@) ==> meaning(
            lookup.url,
            lookup.cached,
            ReplyView::Status(304),
        ) == Meaning::Final(Ok(Some(lookup.cached->0.body))),
{
    reveal_strlit("If-None-Match");
    reveal_strlit("Accept");
    reveal_strlit("Authorization");
    assert("If-None-Match"@[0] == 'I');
    assert("Accept"@[0] == 'A');
    assert("Authorization"@[0] == 'A');
}

/// A stored file is reused: once the cache holds a file with its entity tag, the
/// tag is sent along, and the answer 304 gives back the stored file.
pub proof fn stored_file_is_reused(lookup: LookupView, etag: Seq<char>, body: Seq<char>)
    requires
        lookup.cached == Some(CachedView { etag: Some(etag), body }),
    ensures
        request_headers(lookup).contains(("If-None-Match"@, etag)),
        progress(lookup, ReplyView::Status(304)) == (ProgressView::Finished {
            result: Ok(Some(body)),
            store: None,
            warning: None,
        }),
{
    let headers = request_headers(lookup);
    assert(headers[headers.len() - 1] == ("If-None-Match"@, etag));
}

} // verus!
