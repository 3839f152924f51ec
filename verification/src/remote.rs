//! The compute half of the remote fetcher: decoding the fetched response.
//!
//! The network call itself lives outside the library; what reaches this
//! module is the response body and the freshness-control header, as plain
//! text. Decoding the body and reading a `max-age` out of the header are
//! functions of that text alone; they are named by uninterpreted spec
//! functions, and the decoder's contract is stated over those names.

use vstd::prelude::*;

verus! {

/// The default cache lifetime, in seconds, when the response carries no
/// usable `max-age` directive.
pub const CACHE_EXPIRATION_DEFAULT_SECS: u64 = 3600;

/// What structural decoding of a response body yields: the ordered matching
/// patterns and the preprocessing pattern of the payload's nested object, or
/// nothing when the body is not of that shape.
pub uninterp spec fn parsed_payload(body: Seq<char>) -> Option<(Seq<Seq<char>>, Seq<char>)>;

/// The seconds of the `max-age` directive of a cache-control header value,
/// or nothing when the value has no such directive or cannot be parsed.
pub uninterp spec fn cc_max_age(header: Seq<char>) -> Option<u64>;

/// Relies on `serde_json::from_str` and `serde_json::Value`'s indexing,
/// `as_str` and `as_array`: reading the `regex` object's `keywords` list and
/// `preprocess` string out of a JSON body is a function of the body text
/// alone.
#[verifier::external_body]
pub(crate) fn parse_payload(body: &str) -> (r: Option<(Vec<String>, String)>)
    ensures
        r is Some <==> parsed_payload(body@) is Some,
        r matches Some(p) ==> parsed_payload(body@) == Some((p.0.deep_view(), p.1@)),
{
    let root: serde_json::Value = serde_json::from_str(body).ok()?;
    let preprocess = root["regex"]["preprocess"].as_str()?.to_string();
    let list = root["regex"]["keywords"].as_array()?;
    let keywords: Option<Vec<String>> = list.iter().map(|v| v.as_str().map(String::from)).collect();
    Some((keywords?, preprocess))
}

/// Relies on `cache_control::CacheControl::from_value`: parsing a
/// cache-control header value, and the seconds of its `max_age` field, are
/// functions of the value text alone.
#[verifier::external_body]
pub(crate) fn parse_max_age(header: &str) -> (r: Option<u64>)
    ensures
        r == cc_max_age(header@),
{
    cache_control::CacheControl::from_value(header).and_then(|cc| cc.max_age).map(|d| d.as_secs())
}

/// The cache lifetime, in seconds, that a response's freshness-control
/// header dictates: its `max-age` if the header is present and carries one,
/// the fixed default otherwise.
pub open spec fn spec_ttl(header: Option<Seq<char>>) -> u64 {
    match header {
        Some(h) => match cc_max_age(h) {
            Some(secs) => secs,
            None => CACHE_EXPIRATION_DEFAULT_SECS,
        },
        None => CACHE_EXPIRATION_DEFAULT_SECS,
    }
}

/// The view of an optional header value.
pub open spec fn spec_header(header: Option<&str>) -> Option<Seq<char>> {
    match header {
        Some(h) => Some(h@),
        None => None,
    }
}

/// Computes the cache lifetime a response dictates.
pub fn response_ttl(header: Option<&str>) -> (r: u64)
    ensures
        r == spec_ttl(spec_header(header)),
{
    match header {
        Some(h) => match parse_max_age(h) {
            Some(secs) => secs,
            None => CACHE_EXPIRATION_DEFAULT_SECS,
        },
        None => CACHE_EXPIRATION_DEFAULT_SECS,
    }
}

} // verus!
