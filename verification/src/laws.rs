//! The staleness-handling laws of the classifier, stated over the same spec
//! functions that `verify` and `load_cache` promise their results with.

use vstd::prelude::*;

use crate::cache::{spec_verify, spec_verify_loaded, KeywordsCacheView, KokoView};

verus! {

/// A selector never loaded has no cache entry, so the first classify call
/// for it cannot be answered from the cache: it must trigger a fetch.
pub proof fn lemma_unqueried_selector_needs_fetch(
    v: KokoView,
    input: Seq<char>,
    filter: Seq<char>,
    version: Seq<char>,
    now: u64,
)
    requires
        !v.cache.contains_key((filter, version)),
    ensures
        spec_verify(v, input, filter, version, now) is None,
{
}

/// Once a refresh has installed an entry, every call strictly before its
/// expiry is answered from the cache — no further fetch — and the answer
/// comes from exactly the installed rule set, whatever the store held for
/// that selector before. This is both the quiet half of the fetch-counting
/// laws and the wholesale-replacement law: the old patterns no longer
/// influence matching.
pub proof fn lemma_refresh_serves_until_expiry(
    v: KokoView,
    key: (Seq<char>, Seq<char>),
    entry: KeywordsCacheView,
    input: Seq<char>,
    t: u64,
)
    requires
        t < entry.expires_at,
    ensures
        spec_verify(
            KokoView { cache: v.cache.insert(key, entry), url: v.url },
            input,
            key.0,
            key.1,
            t,
        ) == Some(entry.keywords.matches(input)),
{
}

/// Once the TTL has elapsed — the time is at or past the entry's expiry —
/// the cache no longer answers for the selector: the next classify call must
/// trigger a fetch.
pub proof fn lemma_expired_entry_needs_fetch(
    v: KokoView,
    input: Seq<char>,
    filter: Seq<char>,
    version: Seq<char>,
    now: u64,
)
    requires
        v.cache.contains_key((filter, version)) ==> now >= v.cache[(
            filter,
            version,
        )].expires_at,
    ensures
        spec_verify(v, input, filter, version, now) is None,
{
}

/// A refresh always leaves the call with a boolean answer: the entry it
/// installed is found by the follow-up lookup that ignores freshness, so the
/// single bounded retry suffices and no further fetch can be provoked by a
/// zero lifetime or clock skew.
pub proof fn lemma_refresh_always_answers(
    v: KokoView,
    key: (Seq<char>, Seq<char>),
    entry: KeywordsCacheView,
    input: Seq<char>,
)
    ensures
        spec_verify_loaded(
            KokoView { cache: v.cache.insert(key, entry), url: v.url },
            input,
            key.0,
            key.1,
        ) == Some(entry.keywords.matches(input)),
{
}

/// Idempotence: the answer of a classify call is a function of the cache
/// content, the input and the time alone. Two states with the same cache
/// answer alike, so repeated calls against an unchanged fresh cache yield
/// the same boolean every time.
pub proof fn lemma_classify_idempotent(
    v1: KokoView,
    v2: KokoView,
    input: Seq<char>,
    filter: Seq<char>,
    version: Seq<char>,
    now: u64,
)
    requires
        v1.cache == v2.cache,
    ensures
        spec_verify(v1, input, filter, version, now) == spec_verify(
            v2,
            input,
            filter,
            version,
            now,
        ),
{
}

} // verus!
