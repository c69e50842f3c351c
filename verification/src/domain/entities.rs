//! Entities: objects with identity and a lifecycle.

use vstd::prelude::*;
use std::time::Duration;
use crate::domain::time::{
    duration_as_nanos, duration_from_nanos, duration_nanos, is_clock_reading, nanos_between, Timestamp,
    MAX_DURATION_NANOS,
};
use crate::domain::value_objects::{default_ttl_nanos, CacheKey, CacheTier, CacheValue, Ttl};

verus! {

/// The nanoseconds of a span, capped at the longest `Duration`.
pub open spec fn capped(n: nat) -> nat {
    if n <= MAX_DURATION_NANOS { n } else { MAX_DURATION_NANOS as nat }
}

/// An entry's age never decreases as time goes on: read at a later time,
/// it is at least what it was at an earlier one.
pub proof fn lemma_age_monotone(created: u128, earlier: u128, later: u128)
    requires
        earlier <= later,
    ensures
        capped(nanos_between(created, earlier)) <= capped(nanos_between(created, later)),
{
}

/// A cached value with its metadata.
#[derive(Debug, Clone)]
pub struct CacheEntry {
    /// Cache key (unique identifier).
    pub key: CacheKey,
    /// Cached value.
    pub value: CacheValue,
    /// Time-to-live.
    pub ttl: Ttl,
    /// When the entry was created.
    pub created_at: Timestamp,
    /// When the entry expires.
    pub expires_at: Timestamp,
    /// Which tier the entry is in.
    pub tier: CacheTier,
    /// Hit count.
    pub hits: u64,
}

impl CacheEntry {
    /// Whether this is a fresh entry of `key` and `value` with TTL of `ttl`
    /// nanoseconds, created at `now`.
    pub open spec fn is_new_entry(self, key: Seq<char>, value: Seq<char>, ttl: nat, now: u128) -> bool {
        &&& self.key@ == key
        &&& self.value@ == value
        &&& self.ttl@ == ttl
        &&& self.created_at@ == now
        &&& self.expires_at@ == now + ttl
        &&& self.tier == CacheTier::L1
        &&& self.hits == 0
    }

    /// An entry created at `now` that lives for `ttl`, in tier L1, never hit.
    pub fn with_ttl_at(key: CacheKey, value: CacheValue, ttl: Ttl, now: Timestamp) -> (r: CacheEntry)
        requires
            now@ + ttl@ <= u128::MAX,
        ensures
            r.is_new_entry(key@, value@, ttl@, now@),
    {
        let expires = now.as_nanos() + ttl.as_nanos();
        CacheEntry {
            key,
            value,
            ttl,
            created_at: now,
            expires_at: Timestamp::from_nanos(expires),
            tier: CacheTier::L1,
            hits: 0,
        }
    }

    /// An entry created now with the default TTL of one hour.
    pub fn new(key: CacheKey, value: CacheValue) -> (r: CacheEntry)
        ensures
            is_clock_reading(r.created_at@),
            r.is_new_entry(key@, value@, default_ttl_nanos(), r.created_at@),
    {
        CacheEntry::with_ttl(key, value, Ttl::default())
    }

    /// An entry created now with TTL `ttl`.
    pub fn with_ttl(key: CacheKey, value: CacheValue, ttl: Ttl) -> (r: CacheEntry)
        ensures
            is_clock_reading(r.created_at@),
            r.is_new_entry(key@, value@, ttl@, r.created_at@),
    {
        let now = Timestamp::now();
        // Both are at most the longest duration, so their sum fits.
        let ttl_nanos = ttl.as_nanos();
        assert(now@ + ttl_nanos <= u128::MAX);
        CacheEntry::with_ttl_at(key, value, ttl, now)
    }

    /// Whether the entry has expired at `now`: `now` is past its expiry.
    pub fn is_expired_at(&self, now: Timestamp) -> (r: bool)
        ensures
            r == (now@ > self.expires_at@),
    {
        now.as_nanos() > self.expires_at.as_nanos()
    }

    /// Whether the entry has expired by the clock.
    pub fn is_expired(&self) -> (r: bool)
        ensures
            exists|t: u128| #[trigger] is_clock_reading(t) && r == (t > self.expires_at@),
    {
        let now = Timestamp::now();
        self.is_expired_at(now)
    }

    /// Counts one hit.
    pub fn record_hit(&mut self)
        requires
            old(self).hits < u64::MAX,
        ensures
            *final(self) == (CacheEntry { hits: (old(self).hits + 1) as u64, ..*old(self) }),
    {
        self.hits = self.hits + 1;
    }

    /// The entry's age at `now`: the time since it was created, zero if
    /// `now` comes first, at most the longest `Duration`.
    pub fn age_at(&self, now: Timestamp) -> (r: Duration)
        ensures
            duration_nanos(r) == capped(nanos_between(self.created_at@, now@)),
    {
        let n = now.as_nanos();
        let c = self.created_at.as_nanos();
        let span: u128 = if n >= c { n - c } else { 0 };
        duration_from_nanos(span)
    }

    /// The entry's age by the clock.
    pub fn age(&self) -> (r: Duration)
        ensures
            exists|t: u128| #[trigger] is_clock_reading(t) && duration_nanos(r) == capped(nanos_between(self.created_at@, t)),
    {
        let now = Timestamp::now();
        self.age_at(now)
    }

    /// The time the entry has left at `now`, or `None` once none is left;
    /// at most the longest `Duration`.
    pub fn remaining_ttl_at(&self, now: Timestamp) -> (r: Option<Duration>)
        ensures
            r is Some <==> nanos_between(now@, self.expires_at@) > 0,
            r matches Some(d) ==> duration_nanos(d) == capped(nanos_between(now@, self.expires_at@)),
    {
        let n = now.as_nanos();
        let e = self.expires_at.as_nanos();
        if e > n {
            Some(duration_from_nanos(e - n))
        } else {
            None
        }
    }

    /// The time the entry has left by the clock.
    pub fn remaining_ttl(&self) -> (r: Option<Duration>)
        ensures
            exists|t: u128| #[trigger] is_clock_reading(t) && {
                &&& (r is Some <==> nanos_between(t, self.expires_at@) > 0)
                &&& (r matches Some(d) ==> duration_nanos(d) == capped(nanos_between(t, self.expires_at@)))
            },
    {
        let now = Timestamp::now();
        self.remaining_ttl_at(now)
    }

    /// Moves the entry to `tier`.
    pub fn promote(&mut self, tier: CacheTier)
        ensures
            *final(self) == (CacheEntry { tier, ..*old(self) }),
    {
        self.tier = tier;
    }
}

/// An in-flight request that several callers can wait on.
#[derive(Debug, Clone)]
pub struct SingleflightRequest<T> {
    /// The request's key.
    pub key: String,
    /// The result, once complete.
    pub result: Option<T>,
    /// Number of waiters.
    pub waiters: u32,
    /// When the request was created.
    pub created_at: Timestamp,
    /// The error, if the request failed.
    pub error: Option<String>,
}

impl<T> SingleflightRequest<T> {
    /// A request for `key` created at `now`, with one waiter and no outcome.
    pub fn new_at(key: &str, now: Timestamp) -> (r: SingleflightRequest<T>)
        ensures
            r.key@ == key@,
            r.result is None,
            r.waiters == 1,
            r.created_at == now,
            r.error is None,
    {
        SingleflightRequest { key: String::from_str(key), result: None, waiters: 1, created_at: now, error: None }
    }

    /// A request for `key` created now, with one waiter and no outcome.
    pub fn new(key: &str) -> (r: SingleflightRequest<T>)
        ensures
            r.key@ == key@,
            r.result is None,
            r.waiters == 1,
            is_clock_reading(r.created_at@),
            r.error is None,
    {
        SingleflightRequest::new_at(key, Timestamp::now())
    }

    /// Adds a waiter.
    pub fn add_waiter(&mut self)
        requires
            old(self).waiters < u32::MAX,
        ensures
            *final(self) == (SingleflightRequest { waiters: (old(self).waiters + 1) as u32, ..*old(self) }),
    {
        self.waiters = self.waiters + 1;
    }

    /// Removes a waiter; none are left to remove at zero.
    pub fn remove_waiter(&mut self)
        ensures
            *final(self) == (SingleflightRequest {
                waiters: if old(self).waiters > 0 { (old(self).waiters - 1) as u32 } else { 0 },
                ..*old(self)
            }),
    {
        self.waiters = self.waiters.saturating_sub(1);
    }

    /// Sets the result.
    pub fn set_result(&mut self, result: T)
        ensures
            *final(self) == (SingleflightRequest { result: Some(result), ..*old(self) }),
    {
        self.result = Some(result);
    }

    /// Sets the error.
    pub fn set_error(&mut self, error: &str)
        ensures
            final(self).key == old(self).key,
            final(self).result == old(self).result,
            final(self).waiters == old(self).waiters,
            final(self).created_at == old(self).created_at,
            final(self).error matches Some(e) && e@ == error@,
    {
        self.error = Some(String::from_str(error));
    }

    /// Whether the request has a result or an error.
    pub fn is_complete(&self) -> (r: bool)
        ensures
            r == (self.result is Some || self.error is Some),
    {
        self.result.is_some() || self.error.is_some()
    }
}

/// A singleflight request shared between processes.
#[derive(Debug, Clone)]
pub struct CrossProcessRequest {
    /// Unique request ID.
    pub request_id: String,
    /// Request key.
    pub key: String,
    /// The process that started the request.
    pub owner_pid: u32,
    /// Number of waiting processes.
    pub waiters: u32,
    /// When the request started.
    pub started_at: Timestamp,
    /// The request's status.
    pub status: CrossProcessStatus,
}

/// The status of a cross-process request.
#[derive(Debug, Clone, Copy, PartialEq, Eq, Structural)]
pub enum CrossProcessStatus {
    /// In progress.
    InProgress,
    /// Completed successfully.
    Completed,
    /// Failed.
    Failed,
    /// Timed out.
    TimedOut,
}

impl CrossProcessRequest {
    /// A request started at `now` by `owner_pid`, with one waiter, in progress.
    pub fn new_at(request_id: &str, key: &str, owner_pid: u32, now: Timestamp) -> (r: CrossProcessRequest)
        ensures
            r.request_id@ == request_id@,
            r.key@ == key@,
            r.owner_pid == owner_pid,
            r.waiters == 1,
            r.started_at == now,
            r.status == CrossProcessStatus::InProgress,
    {
        CrossProcessRequest {
            request_id: String::from_str(request_id),
            key: String::from_str(key),
            owner_pid,
            waiters: 1,
            started_at: now,
            status: CrossProcessStatus::InProgress,
        }
    }

    /// A request started now by `owner_pid`, with one waiter, in progress.
    pub fn new(request_id: &str, key: &str, owner_pid: u32) -> (r: CrossProcessRequest)
        ensures
            r.request_id@ == request_id@,
            r.key@ == key@,
            r.owner_pid == owner_pid,
            r.waiters == 1,
            is_clock_reading(r.started_at@),
            r.status == CrossProcessStatus::InProgress,
    {
        CrossProcessRequest::new_at(request_id, key, owner_pid, Timestamp::now())
    }

    /// Whether the request, still in progress at `now`, has run for longer
    /// than `timeout`.
    pub fn is_timed_out_at(&self, timeout: Duration, now: Timestamp) -> (r: bool)
        ensures
            r == (capped(nanos_between(self.started_at@, now@)) > duration_nanos(timeout)
                && self.status == CrossProcessStatus::InProgress),
    {
        let n = now.as_nanos();
        let s = self.started_at.as_nanos();
        let elapsed: u128 = if n >= s { n - s } else { 0 };
        let elapsed: u128 = if elapsed <= MAX_DURATION_NANOS { elapsed } else { MAX_DURATION_NANOS };
        elapsed > duration_as_nanos(&timeout) && self.status == CrossProcessStatus::InProgress
    }

    /// Whether the request, still in progress, has run for longer than
    /// `timeout` by the clock.
    pub fn is_timed_out(&self, timeout: Duration) -> (r: bool)
        ensures
            exists|t: u128| #[trigger] is_clock_reading(t) && r == (capped(nanos_between(self.started_at@, t)) > duration_nanos(timeout)
                && self.status == CrossProcessStatus::InProgress),
    {
        let now = Timestamp::now();
        self.is_timed_out_at(timeout, now)
    }
}

} // verus!
