//! The error taxonomy of the classifier.

use vstd::prelude::*;

verus! {

/// Every failure the engine can report.
///
/// `AuthOrUrlMissing` is the permanent configuration error: the environment
/// supplied neither, or both, of the endpoint URL and the auth token. It is
/// detected once, at startup, and every later call fails with it.
/// `CacheRefreshRequestFailure` is a transport or HTTP-level failure while
/// refreshing a rule set; `CacheResultParseFailure` a structurally invalid
/// remote payload. Neither is cached: the next call retries the fetch.
/// `ParseError` covers a payload whose body or patterns could not be read.
/// `Padding` is never returned; it only anchors the numeric error codes that
/// the foreign-call boundary derives from this enum.
#[derive(Debug, Clone, Copy, PartialEq, Eq, Structural)]
pub enum KokoError {
    Padding,
    AuthOrUrlMissing,
    CacheRefreshRequestFailure,
    CacheResultParseFailure,
    ParseError,
}

pub type KokoResult<T> = Result<T, KokoError>;

} // verus!
