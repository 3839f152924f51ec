//! Resolving the remote endpoint from the configuration values.
//!
//! Exactly one of the two configuration forms must be present: an explicit
//! full endpoint URL, or an authentication token to combine with the fixed
//! default host. Both present, or neither, is the permanent configuration
//! error; the caller enters its degraded state once and never retries.

use vstd::prelude::*;
use vstd::string::StringExecFns;

use crate::errors::{KokoError, KokoResult};

verus! {

/// Resolves the endpoint URL from the two configuration values, exactly one
/// of which must be present.
pub fn get_url(url: Option<String>, auth: Option<String>) -> (r: KokoResult<String>)
    ensures
        url is Some && auth is Some ==> r == Err::<String, KokoError>(KokoError::AuthOrUrlMissing),
        url is None && auth is None ==> r == Err::<String, KokoError>(KokoError::AuthOrUrlMissing),
        (url is Some && auth is None) ==> (r is Ok && r->Ok_0@ == url->Some_0@),
        (url is None && auth is Some) ==> (r is Ok && r->Ok_0@ == "https://"@ + auth->Some_0@
            + "@"@ + "api.kokocares.org/keywords"@),
{
    match (url, auth) {
        (Some(_), Some(_)) => Err(KokoError::AuthOrUrlMissing),
        (Some(u), None) => Ok(u),
        (None, Some(a)) => {
            let mut s = "https://".to_owned();
            s.append(a.as_str());
            s.append("@");
            s.append("api.kokocares.org/keywords");
            Ok(s)
        },
        (None, None) => Err(KokoError::AuthOrUrlMissing),
    }
}

} // verus!
