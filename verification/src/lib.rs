//! A keyword classifier backed by a time-bounded cache of remotely defined
//! rule sets.
//!
//! The engine keeps, per `(filter, version)` selector, a set of matching
//! patterns together with a preprocessing pattern and an absolute expiry
//! instant. A lookup succeeds only while the entry is fresh; on a miss or an
//! expired entry the caller fetches the remote payload and hands its parts
//! back to the engine, which validates the patterns eagerly, computes the
//! expiry from the response's cache-control header, and replaces the entry
//! wholesale. Matching applies the preprocessing pattern (removing every
//! matched substring) and then tests the normalized input against each
//! matching pattern in order.

pub mod errors;
pub mod matching;
pub mod remote;
pub mod cache;
pub mod config;
pub mod laws;
