//! Freshness of a cached ingestion result.
use vstd::prelude::*;
use crate::records::CacheData;

verus! {

/// A snapshot taken at `created_at` is still valid at `now` (seconds since the
/// epoch) when its age is at most `ttl`; one stamped in the future has age
/// zero.
pub open spec fn fresh(created_at: u64, ttl: u64, now: u64) -> bool {
    (if now >= created_at {
        now - created_at
    } else {
        0
    }) <= ttl
}

/// Whether a snapshot taken at `created_at` is still valid at `now_secs`.
pub fn cache_is_valid(created_at: u64, ttl_secs: u64, now_secs: u64) -> (r: bool)
    ensures
        r == fresh(created_at, ttl_secs, now_secs),
{
    let age = if now_secs >= created_at {
        now_secs - created_at
    } else {
        0
    };
    age <= ttl_secs
}

/// Where the snapshot is kept and how long it stays valid.
#[derive(Clone, Debug)]
pub struct CacheStore {
    pub path: String,
    pub ttl_secs: u64,
}

impl CacheStore {
    pub fn new(path: String, ttl_secs: u64) -> (r: CacheStore)
        ensures
            r.path == path,
            r.ttl_secs == ttl_secs,
    {
        CacheStore { path, ttl_secs }
    }

    /// A loaded snapshot counts as a hit when it is still valid at `now_secs`.
    pub fn accepts(&self, data: &CacheData, now_secs: u64) -> (r: bool)
        ensures
            r == fresh(data.created_at, self.ttl_secs, now_secs),
    {
        cache_is_valid(data.created_at, self.ttl_secs, now_secs)
    }
}

} // verus!
