//! Snapshot store: the process-wide holder of the cached environment
//! mapping and the serialized system-metrics snapshot, refreshed
//! together when their age exceeds the time-to-live.
//!
//! The store itself is pure state: the caller owns the clock and the
//! data sources, reads the clock, collects fresh data only when
//! `needs_refresh` says so, and serializes refreshes with a lock so
//! that a reader that loses the race re-checks under the lock and
//! finds the already-refreshed data instead of refreshing again.

use vstd::prelude::*;

verus! {

/// Cached environment and system snapshots taken at one instant.
/// `refresh` replaces both together with the timestamp, so any reader
/// of one store value sees environment and system data from the same
/// refresh, never a mix of old and new.
pub struct Store {
    pub environment: Vec<(String, String)>,
    pub system_json: String,
    pub last_refresh: u64,
    pub ttl: u64,
}

impl Store {
    /// A store starts with an eager first refresh: the data given here
    /// is current as of `now`.
    pub fn new(environment: Vec<(String, String)>, system_json: String, now: u64, ttl: u64) -> (s:
        Store)
        ensures
            s.environment == environment,
            s.system_json == system_json,
            s.last_refresh == now,
            s.ttl == ttl,
    {
        Store { environment, system_json, last_refresh: now, ttl }
    }

    /// The cached data is stale at time `now`: strictly more than
    /// `ttl` ticks have passed since the last refresh.
    pub open spec fn spec_needs_refresh(self, now: u64) -> bool {
        now > self.last_refresh + self.ttl
    }

    /// Whether a reader at time `now` must refresh before reading.  A
    /// clock reading at or before the last refresh never asks for one.
    pub fn needs_refresh(&self, now: u64) -> (r: bool)
        ensures
            r == self.spec_needs_refresh(now),
    {
        if now <= self.last_refresh {
            false
        } else {
            now - self.last_refresh > self.ttl
        }
    }

    /// Replaces both cached snapshots at once and stamps them `now`;
    /// the time-to-live never changes after construction.
    pub fn refresh(&mut self, environment: Vec<(String, String)>, system_json: String, now: u64)
        ensures
            final(self).environment == environment,
            final(self).system_json == system_json,
            final(self).last_refresh == now,
            final(self).ttl == old(self).ttl,
    {
        self.environment = environment;
        self.system_json = system_json;
        self.last_refresh = now;
    }

    /// The cached environment mapping, read-only.
    pub fn get_environment(&self) -> (r: &Vec<(String, String)>)
        ensures
            *r == self.environment,
    {
        &self.environment
    }

    /// The cached serialized system snapshot, read-only.
    pub fn get_system_snapshot(&self) -> (r: &String)
        ensures
            *r == self.system_json,
    {
        &self.system_json
    }
}

/// Readers within the time-to-live of the last refresh share one
/// cache: neither triggers a refresh, so both read the very same
/// `environment` and `system_json` values from the unchanged store.
pub proof fn lemma_cache_hit_identical(s: Store, now1: u64, now2: u64)
    requires
        now1 <= s.last_refresh + s.ttl,
        now2 <= s.last_refresh + s.ttl,
    ensures
        !s.spec_needs_refresh(now1),
        !s.spec_needs_refresh(now2),
{
}

/// After one refresh at time `now`, every concurrent reader that
/// re-checks at any time up to `now + ttl` — in particular a reader
/// that observed the expiry but lost the race for the lock — finds the
/// cache fresh and performs no second refresh.
pub proof fn lemma_no_duplicate_refresh(
    before: Store,
    environment: Vec<(String, String)>,
    system_json: String,
    now: u64,
    after: Store,
    recheck: u64,
)
    requires
        after.environment == environment,
        after.system_json == system_json,
        after.last_refresh == now,
        after.ttl == before.ttl,
        recheck <= now + after.ttl,
    ensures
        !after.spec_needs_refresh(recheck),
{
}

} // verus!
