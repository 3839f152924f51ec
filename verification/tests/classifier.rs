use koko_keywords::cache::KokoKeywords;
use koko_keywords::config::get_url;
use koko_keywords::errors::KokoError;

const BODY_ABC: &str = "{\"regex\":{\"keywords\":[\"^abc$\"],\"preprocess\":\"[0-9]\"}}";
const BODY_DOG: &str = "{\"regex\":{\"keywords\":[\"dog\"],\"preprocess\":\"\\\\s\"}}";
const BODY_CAT: &str = "{\"regex\":{\"keywords\":[\"cat\"],\"preprocess\":\"\\\\s\"}}";

fn loaded(body: &str, header: Option<&str>, now: u64) -> KokoKeywords {
    let mut k = KokoKeywords::new(String::from("http://example.test"));
    k.load_cache("f", None, body, header, now).expect("payload should be accepted");
    k
}

#[test]
fn first_call_needs_fetch_then_cache_answers() {
    let mut k = KokoKeywords::new(String::from("http://example.test"));
    assert_eq!(k.verify("a1b2c3", "f", None, 100), None);
    k.load_cache("f", None, BODY_ABC, None, 100).unwrap();
    // Within the TTL window the cache answers; no further fetch is signalled.
    assert_eq!(k.verify("a1b2c3", "f", None, 100), Some(true));
    assert_eq!(k.verify("a1b2c3", "f", None, 100 + 3599), Some(true));
}

#[test]
fn expired_entry_needs_fetch_and_is_wholly_replaced() {
    let mut k = loaded(BODY_DOG, None, 1000);
    assert_eq!(k.verify("hot dog", "f", None, 1000), Some(true));
    // At the expiry instant the entry no longer answers.
    assert_eq!(k.verify("hot dog", "f", None, 1000 + 3600), None);
    // The refresh replaces the rule set wholesale: the old patterns are gone.
    k.load_cache("f", None, BODY_CAT, None, 1000 + 3600).unwrap();
    assert_eq!(k.verify("hot dog", "f", None, 1000 + 3600), Some(false));
    assert_eq!(k.verify("my cat", "f", None, 1000 + 3600), Some(true));
}

#[test]
fn repeated_calls_agree() {
    let k = loaded(BODY_ABC, None, 0);
    let first = k.verify("a1b2c3", "f", None, 10);
    for _ in 0..5 {
        assert_eq!(k.verify("a1b2c3", "f", None, 10), first);
    }
}

#[test]
fn preprocess_strips_digits_before_matching() {
    let k = loaded(BODY_ABC, None, 0);
    assert_eq!(k.verify("a1b2c3", "f", None, 0), Some(true));
    assert_eq!(k.verify("xabcx", "f", None, 0), Some(false));
}

#[test]
fn missing_configuration_is_rejected() {
    assert_eq!(get_url(None, None), Err(KokoError::AuthOrUrlMissing));
}

#[test]
fn conflicting_configuration_is_rejected() {
    assert_eq!(
        get_url(Some(String::from("http://u")), Some(String::from("t"))),
        Err(KokoError::AuthOrUrlMissing)
    );
}

#[test]
fn explicit_url_is_taken_verbatim() {
    assert_eq!(
        get_url(Some(String::from("http://u")), None),
        Ok(String::from("http://u"))
    );
}

#[test]
fn auth_token_is_combined_with_default_host() {
    assert_eq!(
        get_url(None, Some(String::from("tok"))),
        Ok(String::from("https://tok@api.kokocares.org/keywords"))
    );
}

#[test]
fn malformed_payload_leaves_cache_untouched() {
    let mut k = loaded(BODY_DOG, None, 50);
    // The `keywords` field is missing: structural validation fails.
    let body = "{\"regex\":{\"preprocess\":\"\\\\s\"}}";
    assert_eq!(
        k.load_cache("f", None, body, None, 60),
        Err(KokoError::CacheResultParseFailure)
    );
    // The prior entry still answers with the old rules and the old expiry.
    assert_eq!(k.verify("hot dog", "f", None, 60), Some(true));
    assert_eq!(k.expires_at("f", None), Some(50 + 3600));
}

#[test]
fn unparseable_body_is_rejected() {
    let mut k = KokoKeywords::new(String::from("http://example.test"));
    assert_eq!(
        k.load_cache("f", None, "not json at all", None, 0),
        Err(KokoError::CacheResultParseFailure)
    );
    assert_eq!(k.expires_at("f", None), None);
}

#[test]
fn invalid_pattern_is_rejected_eagerly() {
    let mut k = KokoKeywords::new(String::from("http://example.test"));
    let body = "{\"regex\":{\"keywords\":[\"(\"],\"preprocess\":\"\"}}";
    assert_eq!(
        k.load_cache("f", None, body, None, 0),
        Err(KokoError::CacheResultParseFailure)
    );
    assert_eq!(k.expires_at("f", None), None);
}

#[test]
fn ttl_defaults_to_an_hour_without_max_age() {
    let k = loaded(BODY_ABC, None, 500);
    assert_eq!(k.expires_at("f", None), Some(500 + 3600));
    let k = loaded(BODY_ABC, Some("no-store, no-transform"), 500);
    assert_eq!(k.expires_at("f", None), Some(500 + 3600));
}

#[test]
fn max_age_directive_sets_the_ttl() {
    let k = loaded(BODY_ABC, Some("public, max-age=60"), 500);
    assert_eq!(k.expires_at("f", None), Some(560));
    assert_eq!(k.verify("a1b2c3", "f", None, 559), Some(true));
    assert_eq!(k.verify("a1b2c3", "f", None, 560), None);
}

#[test]
fn zero_ttl_expires_immediately() {
    let k = loaded(BODY_ABC, Some("max-age=0"), 500);
    assert_eq!(k.verify("a1b2c3", "f", None, 500), None);
}

#[test]
fn expiry_saturates_at_the_largest_instant() {
    let k = loaded(BODY_ABC, None, u64::MAX - 10);
    assert_eq!(k.expires_at("f", None), Some(u64::MAX));
    assert_eq!(k.verify("a1b2c3", "f", None, u64::MAX - 1), Some(true));
}

#[test]
fn selectors_are_keyed_by_filter_and_version() {
    let mut k = loaded(BODY_DOG, None, 0);
    k.load_cache("f", Some("2"), BODY_CAT, None, 0).unwrap();
    k.load_cache("g", None, BODY_ABC, None, 0).unwrap();
    assert_eq!(k.verify("hot dog", "f", None, 0), Some(true));
    assert_eq!(k.verify("hot dog", "f", Some("2"), 0), Some(false));
    assert_eq!(k.verify("my cat", "f", Some("2"), 0), Some(true));
    assert_eq!(k.verify("abc", "g", None, 0), Some(true));
    assert_eq!(k.verify("abc", "g", Some("2"), 0), None);
}

#[test]
fn absent_version_is_the_empty_sentinel() {
    let mut k = loaded(BODY_DOG, None, 0);
    // A selector with the empty version is the same selector.
    assert_eq!(k.verify("hot dog", "f", Some(""), 0), Some(true));
    k.load_cache("f", Some(""), BODY_CAT, None, 0).unwrap();
    assert_eq!(k.verify("hot dog", "f", None, 0), Some(false));
}

#[test]
fn matching_is_ordered_and_short_circuits_to_any_match() {
    let body = "{\"regex\":{\"keywords\":[\"nope\",\"^abc\",\"zzz\"],\"preprocess\":\"[0-9]\"}}";
    let k = loaded(body, None, 0);
    assert_eq!(k.verify("abc123", "f", None, 0), Some(true));
    assert_eq!(k.verify("zabc", "f", None, 0), Some(false));
}

#[test]
fn empty_keyword_list_matches_nothing() {
    let body = "{\"regex\":{\"keywords\":[],\"preprocess\":\"[0-9]\"}}";
    let k = loaded(body, None, 0);
    assert_eq!(k.verify("anything", "f", None, 0), Some(false));
}
