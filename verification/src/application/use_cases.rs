//! Use cases: application services that drive the ports.

use vstd::prelude::*;
use crate::domain::events::CacheEvent;
use crate::domain::time::{is_clock_reading, Timestamp, NANOS_PER_SEC};
use crate::domain::value_objects::{default_ttl_nanos, CacheKey, CacheStats, CacheTier, CacheValue, Ttl};
use crate::ports::driven::{
    error_text, found_view, CacheError, CachePort, CacheWritePort, EventPort, StatsPort,
};

verus! {

/// The TTL, in whole seconds, that an entry-created event reports: that of
/// the write, or the default TTL of one hour where the write gave none.
pub open spec fn reported_ttl_secs(ttl: Option<Ttl>) -> nat {
    match ttl {
        Some(t) => t@ / (NANOS_PER_SEC as nat),
        None => default_ttl_nanos() / (NANOS_PER_SEC as nat),
    }
}

/// Whether `e` is the event of a write of `key` with TTL `ttl`: an entry
/// created in L1, stamped with a clock reading.
pub open spec fn is_created_event(e: CacheEvent, key: Seq<char>, ttl: Option<Ttl>) -> bool {
    match e {
        CacheEvent::CacheEntryCreated { key: k, tier, ttl_secs, timestamp } => {
            &&& k@ == key
            &&& tier == CacheTier::L1
            &&& ttl_secs == reported_ttl_secs(ttl)
            &&& is_clock_reading(timestamp@)
        },
        _ => false,
    }
}

/// Whether publishing after a write of `key` with TTL `ttl` took the events
/// from `e0` to `e1` and answered `r`: on `Ok`, exactly one event was added,
/// the entry-created event of the write; on `Err`, none was, and the
/// publisher refused that event with the message.
pub open spec fn publish_answer<E: EventPort>(e0: E, e1: E, key: Seq<char>, ttl: Option<Ttl>, r: Result<(), String>) -> bool {
    match r {
        Ok(()) => {
            &&& e1.published().len() == e0.published().len() + 1
            &&& e1.published().drop_last() == e0.published()
            &&& is_created_event(e1.published().last(), key, ttl)
        },
        Err(m) => {
            &&& e1.published() == e0.published()
            &&& exists|ev: CacheEvent| is_created_event(ev, key, ttl) && #[trigger] e0.refuses(ev, m@)
        },
    }
}

/// Whether a set use case took the cache from `c0` to `c1` and the events
/// from `e0` to `e1`, answering `r`: either the write succeeded and the
/// answer is the publisher's, or the write failed with some error, nothing
/// was published, and the answer is that error's message.
pub open spec fn set_outcome<C: CacheWritePort, E: EventPort>(
    c0: C,
    c1: C,
    e0: E,
    e1: E,
    key: Seq<char>,
    value: Seq<char>,
    ttl: Option<Ttl>,
    r: Result<(), String>,
) -> bool {
    ||| c0.set_step(c1, key, value, ttl) && publish_answer(e0, e1, key, ttl, r)
    ||| exists|e: CacheError| #[trigger] c0.set_fails(c1, key, value, ttl, e)
        && e1.published() == e0.published() && (r matches Err(m) && m@ == error_text(e))
}

/// The answer to a write's result: `Ok` for `Ok`, and the error's message
/// for an error.
pub fn write_answer(written: Result<(), CacheError>) -> (r: Result<(), String>)
    ensures
        r is Ok <==> written is Ok,
        written matches Err(e) ==> (r matches Err(m) && m@ == error_text(e)),
{
    match written {
        Ok(()) => Ok(()),
        Err(e) => Err(e.to_string()),
    }
}

/// Reads a value and counts the read in the statistics.
pub struct GetCacheUseCase<'a, C: CachePort, S: StatsPort> {
    cache: &'a mut C,
    stats: &'a mut S,
}

impl<'a, C: CachePort, S: StatsPort> GetCacheUseCase<'a, C, S> {
    /// The cache the use case reads.
    pub closed spec fn cache(self) -> &'a mut C {
        self.cache
    }

    /// The statistics the use case counts in.
    pub closed spec fn stats(self) -> &'a mut S {
        self.stats
    }

    /// A use case over `cache` and `stats`.
    pub fn new(cache: &'a mut C, stats: &'a mut S) -> (r: Self)
        ensures
            *r.cache() == *old(cache),
            *final(cache) == *final(r.cache()),
            *r.stats() == *old(stats),
            *final(stats) == *final(r.stats()),
    {
        GetCacheUseCase { cache, stats }
    }

    /// Reads `key`; counts a hit in L1 when found and a miss otherwise.
    pub fn execute(&mut self, key: &CacheKey) -> (r: Option<CacheValue>)
        requires
            old(self).cache().read_ready(key@),
            old(self).stats().stats_ready(),
            old(self).stats().stats_view().can_hit(CacheTier::L1),
            old(self).stats().stats_view().can_miss(),
        ensures
            (*old(self).cache()).read_step(*final(self).cache(), key@, found_view(r)),
            final(self).stats().stats_ready(),
            final(self).stats().stats_view() == (match r {
                Some(_) => old(self).stats().stats_view().with_hit(CacheTier::L1),
                None => old(self).stats().stats_view().with_miss(),
            }),
            *final(final(self).cache()) == *final(old(self).cache()),
            *final(final(self).stats()) == *final(old(self).stats()),
    {
        match self.cache.get(key) {
            Some(value) => {
                self.stats.record_hit(CacheTier::L1);
                Some(value)
            },
            None => {
                self.stats.record_miss();
                None
            },
        }
    }
}

/// Writes a value and publishes that it was created.
pub struct SetCacheUseCase<'a, C: CacheWritePort, E: EventPort> {
    cache: &'a mut C,
    events: &'a mut E,
}

impl<'a, C: CacheWritePort, E: EventPort> SetCacheUseCase<'a, C, E> {
    /// The cache the use case writes.
    pub closed spec fn cache(self) -> &'a mut C {
        self.cache
    }

    /// Where the use case publishes.
    pub closed spec fn events(self) -> &'a mut E {
        self.events
    }

    /// A use case over `cache` and `events`.
    pub fn new(cache: &'a mut C, events: &'a mut E) -> (r: Self)
        ensures
            *r.cache() == *old(cache),
            *final(cache) == *final(r.cache()),
            *r.events() == *old(events),
            *final(events) == *final(r.events()),
    {
        SetCacheUseCase { cache, events }
    }

    /// Writes `value` under `key`, with `ttl` or the cache's default; once
    /// written, publishes an entry-created event and answers as the
    /// publisher did. A failed write publishes nothing and answers with the
    /// write's error message.
    pub fn execute(&mut self, key: CacheKey, value: CacheValue, ttl: Option<Ttl>) -> (r: Result<(), String>)
        requires
            old(self).cache().write_ready(),
        ensures
            set_outcome(
                *old(self).cache(),
                *final(self).cache(),
                *old(self).events(),
                *final(self).events(),
                key@,
                value@,
                ttl,
                r,
            ),
            *final(final(self).cache()) == *final(old(self).cache()),
            *final(final(self).events()) == *final(old(self).events()),
    {
        let ghost e0 = *self.events;
        let key_text = key.to_owned_string();
        let written = match ttl {
            Some(t) => self.cache.set_with_ttl(key, value, t),
            None => self.cache.set(key, value),
        };
        if written.is_err() {
            return write_answer(written);
        }
        let ttl_secs = match ttl {
            Some(t) => t.as_secs(),
            None => Ttl::default().as_secs(),
        };
        let event = CacheEvent::CacheEntryCreated {
            key: key_text,
            tier: CacheTier::L1,
            ttl_secs,
            timestamp: Timestamp::now(),
        };
        let ghost ev = event;
        let published = self.events.publish(event);
        proof {
            if published is Ok {
                assert(self.events.published().drop_last() =~= e0.published());
            } else {
                assert(is_created_event(ev, key@, ttl) && e0.refuses(ev, published->Err_0@));
            }
        }
        published
    }
}

/// Removes a value.
pub struct RemoveCacheUseCase<'a, C: CacheWritePort> {
    cache: &'a mut C,
}

impl<'a, C: CacheWritePort> RemoveCacheUseCase<'a, C> {
    /// The cache the use case removes from.
    pub closed spec fn cache(self) -> &'a mut C {
        self.cache
    }

    /// A use case over `cache`.
    pub fn new(cache: &'a mut C) -> (r: Self)
        ensures
            *r.cache() == *old(cache),
            *final(cache) == *final(r.cache()),
    {
        RemoveCacheUseCase { cache }
    }

    /// Removes `key`; answers `Ok` when the removal succeeded, and the
    /// removal's error message when it failed.
    pub fn execute(&mut self, key: &CacheKey) -> (r: Result<(), String>)
        requires
            old(self).cache().write_ready(),
        ensures
            match r {
                Ok(()) => (*old(self).cache()).remove_step(*final(self).cache(), key@),
                Err(m) => exists|e: CacheError| #[trigger] (*old(self).cache()).remove_fails(*final(self).cache(), key@, e)
                    && m@ == error_text(e),
            },
            *final(final(self).cache()) == *final(old(self).cache()),
    {
        let removed = self.cache.remove(key);
        let ghost c1 = *self.cache;
        proof {
            if removed is Ok {
                assert((*old(self).cache()).remove_step(c1, key@));
            }
        }
        write_answer(removed)
    }
}

/// Reads the statistics.
pub struct GetStatsUseCase<'a, S: StatsPort> {
    stats: &'a S,
}

impl<'a, S: StatsPort> GetStatsUseCase<'a, S> {
    /// The statistics the use case reads.
    pub closed spec fn stats(self) -> &'a S {
        self.stats
    }

    /// A use case over `stats`.
    pub fn new(stats: &'a S) -> (r: Self)
        ensures
            r.stats() == stats,
    {
        GetStatsUseCase { stats }
    }

    /// The current statistics.
    pub fn execute(&self) -> (r: CacheStats)
        requires
            self.stats().stats_ready(),
            self.stats().stats_view().size <= usize::MAX,
        ensures
            r@ == self.stats().stats_view(),
    {
        self.stats.get_stats()
    }
}

} // verus!
