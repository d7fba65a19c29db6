use cargo_pkgman::error::Error;
use cargo_pkgman::fetch::{is_retryable_status, Lookup, Progress, Reply, MAX_ATTEMPTS};
use cargo_pkgman::index::{fnv1a64, parse_index_body, Cached};
use cargo_pkgman::{latest_version, IndexCache, Version};

const URL: &str = "https://index.example/ab/cd/abcd";

fn lookup(token: Option<&str>, etag: Option<&str>, body: Option<&str>) -> Lookup {
    Lookup::new(
        URL.to_string(),
        token.map(String::from),
        body.map(|body| Cached {
            etag: etag.map(String::from),
            body: body.to_string(),
        }),
    )
}

fn finish(
    mut lookup: Lookup,
    replies: Vec<Reply>,
) -> (Result<Option<String>, Error>, Option<String>, Option<String>, usize) {
    let cache = IndexCache::new();
    let mut used = 0;
    for reply in replies {
        used += 1;
        match lookup.step(reply, &cache) {
            Progress::Again(next) => lookup = next,
            Progress::Finished {
                result,
                store,
                warning,
            } => return (result, store, warning, used),
        }
    }
    panic!("the lookup goes on");
}

#[test]
fn parse_index_skips_yanked_and_prerelease() {
    let body = r#"
{"vers":"1.0.0","yanked":false}
{"vers":"1.1.0","yanked":true}
{"vers":"2.0.0-beta.1","yanked":false}
{"vers":"1.0.1","yanked":false}
"#;
    let version = parse_index_body(body, false).unwrap().unwrap();
    assert_eq!(version, Version::parse("1.0.1").unwrap());

    let version = parse_index_body(body, true).unwrap().unwrap();
    assert_eq!(version, Version::parse("2.0.0-beta.1").unwrap());
}

#[test]
fn versions_are_ordered_by_precedence() {
    let newer = |a: &str, b: &str| {
        Version::parse(a)
            .unwrap()
            .is_newer_than(&Version::parse(b).unwrap())
    };
    assert!(newer("1.10.0", "1.9.0"));
    assert!(newer("1.0.0", "1.0.0-rc.1"));
    assert!(newer("1.0.0-rc.2", "1.0.0-beta.11"));
    assert!(newer("1.0.0-beta.11", "1.0.0-beta.2"));
    assert!(newer("1.0.0+b", "1.0.0+a"));
    assert!(!newer("1.0.0", "1.0.0"));
    assert!(!newer("1.0.0-rc.1", "1.0.0"));
    assert!(Version::parse("1.0").is_none());
    assert_eq!(
        Version::parse("10.2.30-alpha.1+x").unwrap().text(),
        "10.2.30-alpha.1+x"
    );
}

#[test]
fn index_without_a_usable_version_has_no_latest() {
    assert!(parse_index_body("", false).unwrap().is_none());
    assert!(parse_index_body("{\"vers\":\"x\"}\n{\"name\":\"a\"}\n\r\n", false)
        .unwrap()
        .is_none());
    assert!(latest_version(None, false).unwrap().is_none());
    let version = latest_version(Some("{\"vers\":\"0.3.0\"}".to_string()), false);
    assert_eq!(version.unwrap().unwrap().text(), "0.3.0");
}

#[test]
fn malformed_index_entry_is_an_error() {
    let error = parse_index_body("{\"vers\":\"1.0.0\"}\nnope\n", false).unwrap_err();
    assert!(error.message().starts_with("malformed index entry: "));
    assert!(matches!(error, Error::Registry(_)));
}

#[test]
fn cache_roundtrip() {
    let cache = IndexCache::new();
    let text = cache.put("https://index.example/ab/cd/abcd", "\"etag1\"", "body");
    let cached = cache
        .get("https://index.example/ab/cd/abcd", &text)
        .unwrap();
    assert_eq!(cached.etag.as_deref(), Some("\"etag1\""));
    assert_eq!(cached.body, "body");
    assert!(cache.get("https://other.example/crate", &text).is_none());
}

#[test]
fn cache_text_is_an_object_with_sorted_members() {
    let text = IndexCache::new().put("u", "e", "line\n");
    assert_eq!(text, "{\"body\":\"line\\n\",\"etag\":\"e\",\"url\":\"u\"}");
}

#[test]
fn cache_reads_incomplete_documents() {
    let cache = IndexCache::new();
    let cached = cache.get("u", "{\"url\":\"u\",\"body\":\"b\"}").unwrap();
    assert_eq!(cached.etag, None);
    assert_eq!(cached.body, "b");
    assert!(cache.get("u", "{\"url\":\"u\"}").is_none());
    assert!(cache.get("u", "[]").is_none());
    assert!(cache.get("u", "{").is_none());
}

#[test]
fn cache_files_are_named_by_hash() {
    assert_eq!(fnv1a64(""), 0xcbf29ce484222325);
    assert_eq!(fnv1a64("a"), 0xaf63dc4c8601ec8c);
    assert_eq!(
        IndexCache::new().path_for("a"),
        ["pkgman", "cache", "af63dc4c8601ec8c.json"]
    );
}

#[test]
fn request_carries_token_and_etag() {
    let headers = lookup(Some("Bearer x"), Some("\"e\""), Some("b")).headers();
    assert_eq!(
        headers,
        [
            ("Accept".to_string(), "text/plain".to_string()),
            ("Authorization".to_string(), "Bearer x".to_string()),
            ("If-None-Match".to_string(), "\"e\"".to_string()),
        ]
    );
    assert_eq!(lookup(None, None, Some("b")).headers().len(), 1);
    assert_eq!(lookup(None, None, None).url(), URL);
}

#[test]
fn fresh_file_is_returned_and_stored() {
    let reply = Reply::Body {
        etag: Some("\"new\"".to_string()),
        body: "fresh".to_string(),
    };
    let (result, store, warning, _) = finish(lookup(None, None, None), vec![reply]);
    assert_eq!(result.unwrap().as_deref(), Some("fresh"));
    assert_eq!(warning, None);
    let cached = IndexCache::new().get(URL, &store.unwrap()).unwrap();
    assert_eq!(cached.etag.as_deref(), Some("\"new\""));
    assert_eq!(cached.body, "fresh");

    let reply = Reply::Body {
        etag: None,
        body: "fresh".to_string(),
    };
    let (_, store, _, _) = finish(lookup(None, None, None), vec![reply]);
    assert_eq!(store, None);
}

#[test]
fn unchanged_file_comes_from_the_cache() {
    let (result, _, warning, _) = finish(
        lookup(None, Some("\"e\""), Some("old")),
        vec![Reply::Status(304)],
    );
    assert_eq!(result.unwrap().as_deref(), Some("old"));
    assert_eq!(warning, None);
}

#[test]
fn unchanged_without_a_cache_entry_is_an_error() {
    let replies = (0..3).map(|_| Reply::Status(304)).collect();
    let (result, _, _, used) = finish(lookup(None, None, None), replies);
    assert_eq!(used, 3);
    assert_eq!(
        result.unwrap_err().message(),
        "received HTTP 304 without a cache entry"
    );
}

#[test]
fn missing_crate_is_none() {
    let (result, _, _, used) = finish(lookup(None, None, Some("b")), vec![Reply::Status(404)]);
    assert_eq!(result.unwrap(), None);
    assert_eq!(used, 1);
}

#[test]
fn refused_requests_are_not_repeated() {
    for code in [401, 403] {
        let (result, _, _, used) =
            finish(lookup(None, None, Some("b")), vec![Reply::Status(code)]);
        assert_eq!(used, 1);
        assert_eq!(
            result.unwrap_err().message(),
            "registry authentication failed for https://index.example/ab/cd/abcd"
        );
    }
    let (result, _, _, used) = finish(lookup(None, None, Some("b")), vec![Reply::Status(418)]);
    assert_eq!(used, 1);
    assert_eq!(
        result.unwrap_err().message(),
        "HTTP 418 from https://index.example/ab/cd/abcd"
    );
}

#[test]
fn file_that_cannot_be_used_ends_the_lookup() {
    let (result, store, warning, used) = finish(
        lookup(None, None, Some("stale")),
        vec![Reply::Unreadable("too long".to_string())],
    );
    assert_eq!(used, 1);
    assert_eq!(result.unwrap_err().message(), "too long");
    assert_eq!(store, None);
    assert_eq!(warning, None);
}

#[test]
fn passing_failures_are_repeated_three_times() {
    let replies = vec![
        Reply::Failed("no route".to_string()),
        Reply::Status(429),
        Reply::Status(503),
        Reply::Status(404),
    ];
    let (result, _, _, used) = finish(lookup(None, None, None), replies);
    assert_eq!(used, MAX_ATTEMPTS as usize);
    assert_eq!(
        result.unwrap_err().message(),
        "HTTP 503 from https://index.example/ab/cd/abcd"
    );
    let retried: Vec<u16> = (0..=600).filter(|code| is_retryable_status(*code)).collect();
    let mut expected = vec![408, 429];
    expected.extend(500..=599);
    assert_eq!(retried, expected);
}

#[test]
fn stale_cache_is_used_when_the_network_fails() {
    let replies = vec![
        Reply::Status(500),
        Reply::Status(502),
        Reply::Failed("timed out".to_string()),
    ];
    let (result, store, warning, _) = finish(lookup(None, None, Some("stale")), replies);
    assert_eq!(result.unwrap().as_deref(), Some("stale"));
    assert_eq!(store, None);
    assert_eq!(warning.as_deref(), Some("timed out; using cached index"));
}

#[test]
fn attempts_wait_longer_each_time() {
    let cache = IndexCache::new();
    let first = lookup(None, None, None);
    assert_eq!(first.delay(), 0);
    let Progress::Again(second) = first.step(Reply::Status(500), &cache) else {
        panic!("expected another attempt");
    };
    assert_eq!(second.delay(), 200);
    let Progress::Again(third) = second.step(Reply::Status(500), &cache) else {
        panic!("expected another attempt");
    };
    assert_eq!(third.delay(), 400);
}
