//! Types of the content-fetching proxy: what a conditional HTTP fetch
//! reports, and the freshness rule deciding when a cached copy is served
//! instead of fetching again. The fetch itself is the application
//! shell's job.

use vstd::prelude::*;

verus! {

/// Outcomes of the fetch proxy, as surfaced to the client.
#[derive(Debug, Clone, PartialEq, Eq, Structural)]
pub enum proxys_return {
    NOT_MODIFIED,
    BLANK_URL,
    SERVER_ERROR,
}

/// What one conditional fetch produced: the status, the body when one
/// came, and the validators for the next conditional request.
#[derive(Debug, Clone)]
pub struct CachedFetchResult {
    pub status: u16,
    pub content: Option<String>,
    pub etag: Option<String>,
    pub last_modified: Option<String>,
}

/// How long a cached copy stays fresh, in seconds.
pub const CACHE_FRESH_SECS: u64 = 300;

/// Whether the client's copy is still fresh against the cache: a client
/// that fetched at `client_time` needs nothing new while the cache was
/// written no more than the freshness window before it.
pub fn cache_is_fresh(client_time: u64, cache_time: u64) -> (r: bool)
    ensures
        r == (client_time as int <= cache_time as int + CACHE_FRESH_SECS as int),
{
    (client_time as u128) <= (cache_time as u128) + (CACHE_FRESH_SECS as u128)
}

} // verus!
