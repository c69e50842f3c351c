//! The in-memory adapter: a two-tier cache with an L1 least-recently-used
//! tier for hot data (`lru`) in front of an L2 map for warm data
//! (`dashmap`).
//!
//! A write goes to both tiers. A read looks in L1, then in L2; an L2 entry
//! found stale is dropped. An entry is fresh while its expiry, the time of
//! its write plus its TTL, lies after the time of the read; a zero TTL
//! expires at once.

use vstd::prelude::*;
use lru::LruCache;
use dashmap::DashMap;
use crate::adapters::hot_tier::{
    both, expiries_within, has_key, hot_clear, hot_get, hot_len, hot_new, hot_pop, hot_put,
    hot_slots, key_index, keys_unique, lemma_filter_all, lemma_filter_ext, lemma_filter_sub,
    lemma_filter_twice, lemma_filter_unique, lemma_put_wf, lemma_touched_wf,
    lemma_without_present_key, lemma_without_wf, lru_capacity, lru_put, lru_slots, lru_touched,
    other_key, slot_view, without_key, Slot,
};
use crate::adapters::warm_tier::{
    map_slots, warm_clear, warm_get, warm_insert, warm_len, warm_new, warm_remove, warm_slots,
};
use crate::domain::entities::CacheEntry;
use crate::domain::events::CacheEvent;
use crate::domain::time::{is_clock_reading, Timestamp, MAX_DURATION_NANOS, NANOS_PER_SEC};
use crate::domain::value_objects::{
    default_ttl_nanos, CacheKey, CacheStats, CacheTier, CacheValue, StatsView, Ttl,
};
use crate::ports::driven::{CacheError, CachePort, CacheWritePort, EventPort, StatsPort};

verus! {

broadcast use {vstd::map::group_map_axioms, vstd::set::group_set_axioms};

/// The latest expiry a tier can hold: a clock reading plus the longest TTL.
pub open spec fn expiry_bound() -> nat {
    (2 * MAX_DURATION_NANOS) as nat
}

/// The state of a two-tier cache.
#[verifier::ext_equal]
pub struct TieredView {
    /// L1 slots, least recently used first.
    pub l1: Seq<Slot>,
    /// L1 capacity.
    pub l1_cap: nat,
    /// L2: key to value and expiry.
    pub l2: Map<Seq<char>, (Seq<char>, u128)>,
    /// The counters.
    pub stats: StatsView,
    /// Events published.
    pub events: Seq<CacheEvent>,
    /// The default TTL, in nanoseconds.
    pub default_ttl: nat,
}

impl TieredView {
    /// A new, empty cache.
    pub open spec fn initial(l1_cap: nat, default_ttl: nat) -> TieredView {
        TieredView {
            l1: Seq::empty(),
            l1_cap,
            l2: Map::empty(),
            stats: StatsView::zeroed(0),
            events: Seq::empty(),
            default_ttl,
        }
    }

    /// The cache's invariant: L1 holds each key once and no more slots than
    /// its capacity, L2 is finite, and every expiry is within reach.
    pub open spec fn wf(self) -> bool {
        &&& keys_unique(self.l1)
        &&& self.l1.len() <= self.l1_cap
        &&& 0 < self.l1_cap <= usize::MAX
        &&& expiries_within(self.l1, expiry_bound())
        &&& self.l2.dom().finite()
        &&& forall|k: Seq<char>| #[trigger] self.l2.contains_key(k) ==> self.l2[k].1 <= expiry_bound()
        &&& self.default_ttl <= MAX_DURATION_NANOS
        &&& self.stats.tier_hits.len() == 3
    }

    /// Whether a slot that expires at `expiry` is fresh at `now`.
    pub open spec fn fresh(self, expiry: u128, now: u128) -> bool {
        expiry > now
    }

    /// Whether L1 holds a fresh slot for `k` at `now`.
    pub open spec fn l1_hit(self, k: Seq<char>, now: u128) -> bool {
        has_key(self.l1, k) && self.fresh(self.l1[key_index(self.l1, k)].2, now)
    }

    /// Whether L2 holds a fresh entry for `k` at `now`.
    pub open spec fn l2_hit(self, k: Seq<char>, now: u128) -> bool {
        self.l2.contains_key(k) && self.fresh(self.l2[k].1, now)
    }

    /// What a read of `k` at `now` finds, and in which tier: L1 first, then
    /// L2.
    pub open spec fn lookup(self, k: Seq<char>, now: u128) -> Option<(Seq<char>, CacheTier)> {
        if self.l1_hit(k, now) {
            Some((self.l1[key_index(self.l1, k)].1, CacheTier::L1))
        } else if self.l2_hit(k, now) {
            Some((self.l2[k].0, CacheTier::L2))
        } else {
            None
        }
    }

    /// The value a read of `k` at `now` finds.
    pub open spec fn lookup_value(self, k: Seq<char>, now: u128) -> Option<Seq<char>> {
        match self.lookup(k, now) {
            Some(p) => Some(p.0),
            None => None,
        }
    }

    /// The cache after a read of `k` at `now`, counters aside: an L1 slot of
    /// `k` becomes the most recently used; a stale L2 entry of `k` read
    /// after an L1 miss is dropped.
    pub open spec fn after_lookup(self, k: Seq<char>, now: u128) -> TieredView {
        TieredView {
            l1: lru_touched(self.l1, k),
            l2: if !self.l1_hit(k, now) && self.l2.contains_key(k) && !self.fresh(self.l2[k].1, now) {
                self.l2.remove(k)
            } else {
                self.l2
            },
            ..self
        }
    }

    /// The counters after a read of `k` at `now`: a hit in the tier that
    /// served it, or a miss.
    pub open spec fn counted(self, k: Seq<char>, now: u128) -> StatsView {
        match self.lookup(k, now) {
            Some(p) => self.stats.with_hit(p.1),
            None => self.stats.with_miss(),
        }
    }

    /// The cache after a counted read of `k` at `now`.
    pub open spec fn after_get(self, k: Seq<char>, now: u128) -> TieredView {
        TieredView { stats: self.counted(k, now), ..self.after_lookup(k, now) }
    }

    /// Whether the counters have room for what a read of `k` at `now`
    /// counts: a hit in the tier that serves it, or a miss.
    pub open spec fn can_count(self, k: Seq<char>, now: u128) -> bool {
        match self.lookup(k, now) {
            Some(p) => self.stats.can_hit(p.1),
            None => self.stats.can_miss(),
        }
    }

    /// The cache after `value` is written under `k` with expiry `expiry`:
    /// put in L1, the least recently used slot giving way when it is full,
    /// and inserted in L2.
    pub open spec fn after_set(self, k: Seq<char>, value: Seq<char>, expiry: u128) -> TieredView {
        TieredView {
            l1: lru_put(self.l1, self.l1_cap, (k, value, expiry)),
            l2: self.l2.insert(k, (value, expiry)),
            ..self
        }
    }

    /// The cache after `k` is removed from both tiers.
    pub open spec fn after_remove(self, k: Seq<char>) -> TieredView {
        TieredView { l1: without_key(self.l1, k), l2: self.l2.remove(k), ..self }
    }

    /// How many entries a clear of `tier` reports: those of the tier, of
    /// both tiers for `None` (an entry in both counts twice), none for L3.
    pub open spec fn clear_count(self, tier: Option<CacheTier>) -> nat {
        match tier {
            Some(CacheTier::L1) => self.l1.len(),
            Some(CacheTier::L2) => self.l2.len(),
            Some(CacheTier::L3) => 0,
            None => self.l1.len() + self.l2.len(),
        }
    }

    /// The cache after a clear of `tier`.
    pub open spec fn after_clear(self, tier: Option<CacheTier>) -> TieredView {
        match tier {
            Some(CacheTier::L1) => TieredView { l1: Seq::empty(), ..self },
            Some(CacheTier::L2) => TieredView { l2: Map::empty(), ..self },
            Some(CacheTier::L3) => self,
            None => TieredView { l1: Seq::empty(), l2: Map::empty(), ..self },
        }
    }

    /// Whether a slot is fresh at `now`.
    pub open spec fn fresh_slot(self, now: u128) -> spec_fn(Slot) -> bool {
        |s: Slot| self.fresh(s.2, now)
    }

    /// The L2 entries fresh at `now`.
    pub open spec fn fresh_l2(self, now: u128) -> Map<Seq<char>, (Seq<char>, u128)> {
        Map::new(|k: Seq<char>| self.l2.contains_key(k) && self.fresh(self.l2[k].1, now), |k: Seq<char>| self.l2[k])
    }

    /// The cache after a cleanup at `now`: only fresh entries are left, in
    /// L1 in their order.
    pub open spec fn after_cleanup(self, now: u128) -> TieredView {
        TieredView { l1: self.l1.filter(self.fresh_slot(now)), l2: self.fresh_l2(now), ..self }
    }

    /// How many entries a cleanup at `now` removes from both tiers.
    pub open spec fn cleanup_count(self, now: u128) -> nat {
        ((self.l1.len() - self.l1.filter(self.fresh_slot(now)).len()) + (self.l2.len() - self.fresh_l2(now).len())) as nat
    }

    /// Whether a slot is fresh at `now` or its key is not among `done`.
    pub open spec fn kept_unless_done(self, now: u128, done: Set<Seq<char>>) -> spec_fn(Slot) -> bool {
        |s: Slot| self.fresh(s.2, now) || !done.contains(s.0)
    }

    /// The statistics reported: the counters, with the size of both tiers.
    pub open spec fn reported_stats(self) -> StatsView {
        self.stats.with_size(self.l1.len() + self.l2.len())
    }
}

/// A two-tier cache: L1 (least recently used) for hot data, L2 (a
/// concurrent map) for warm data.
pub struct TieredCache {
    l1: LruCache<String, (String, u128)>,
    l2: DashMap<String, (String, u128)>,
    stats: CacheStats,
    events: Vec<CacheEvent>,
    default_ttl: Ttl,
    l1_max_size: usize,
}

impl View for TieredCache {
    type V = TieredView;

    closed spec fn view(&self) -> TieredView {
        TieredView {
            l1: lru_slots(self.l1),
            l1_cap: lru_capacity(self.l1),
            l2: map_slots(self.l2),
            stats: self.stats@,
            events: self.events@,
            default_ttl: self.default_ttl@,
        }
    }
}

/// The keys of the first `i` slots of `s`.
pub open spec fn first_keys(s: Seq<Slot>, i: int) -> Set<Seq<char>> {
    Set::new(|k: Seq<char>| exists|j: int| 0 <= j < i && #[trigger] s[j].0 == k)
}

/// The keys of the first `i` entries handed out.
pub open spec fn first_entry_keys(w: Seq<(String, String, u128)>, i: int) -> Set<Seq<char>> {
    Set::new(|k: Seq<char>| exists|j: int| 0 <= j < i && #[trigger] w[j].0@ == k)
}

/// Whether an entry handed out is in `m`, with its value and expiry.
pub open spec fn entry_in(m: Map<Seq<char>, (Seq<char>, u128)>, t: (String, String, u128)) -> bool {
    m.contains_key(t.0@) && m[t.0@] == (t.1@, t.2)
}

impl TieredCache {
    /// The cache's invariant.
    pub closed spec fn wf(&self) -> bool {
        self@.wf() && self.l1_max_size == self@.l1_cap
    }

    /// A well-formed cache's state keeps the model's invariant: each key at
    /// most once in L1, and L1 never over its capacity, which is the
    /// configured `l1_max_size`.
    pub proof fn lemma_invariant(&self)
        requires
            self.wf(),
        ensures
            self@.wf(),
            self@.l1.len() <= self@.l1_cap,
    {
    }

    /// A cache with L1 capacity 1000 and a default TTL of one hour.
    pub fn new() -> (r: TieredCache)
        ensures
            r.wf(),
            r@ == TieredView::initial(1000, (3600 * NANOS_PER_SEC) as nat),
    {
        TieredCache::with_config(1000, 10000, Ttl::from_secs(3600))
    }

    /// A cache with L1 capacity `l1_max_size` and default TTL
    /// `default_ttl`. L2 is unbounded: `l2_max_size` is not used.
    pub fn with_config(l1_max_size: usize, l2_max_size: usize, default_ttl: Ttl) -> (r: TieredCache)
        requires
            l1_max_size > 0,
        ensures
            r.wf(),
            r@ == TieredView::initial(l1_max_size as nat, default_ttl@),
    {
        // The TTL's length is at most the longest duration.
        let ttl_nanos = default_ttl.as_nanos();
        let r = TieredCache {
            l1: hot_new(l1_max_size),
            l2: warm_new(),
            stats: CacheStats::new(),
            events: Vec::new(),
            default_ttl,
            l1_max_size,
        };
        assert(r@.l2 =~= Map::<Seq<char>, (Seq<char>, u128)>::empty());
        r
    }

    /// Looks `key` up at `now` in L1, then L2, without counting.
    fn get_internal(&mut self, key: &CacheKey, now: Timestamp) -> (r: Option<(CacheValue, CacheTier)>)
        requires
            old(self).wf(),
        ensures
            final(self).wf(),
            final(self)@ == old(self)@.after_lookup(key@, now@),
            match r {
                Some(p) => old(self)@.lookup(key@, now@) == Some((p.0@, p.1)),
                None => old(self)@.lookup(key@, now@) is None,
            },
    {
        let ghost v0 = self@;
        let k = key.to_owned_string();
        let now_n = now.as_nanos();
        proof {
            lemma_touched_wf(v0.l1, k@, expiry_bound());
        }
        let hot = hot_get(&mut self.l1, &k);
        assert(self@.l1 == lru_touched(v0.l1, key@));
        match hot {
            Some(entry) => {
                assert(entry.1 <= expiry_bound());
                if entry.1 > now_n {
                    assert(v0.l1_hit(key@, now@));
                    assert(self@ =~= v0.after_lookup(key@, now@));
                    return Some((CacheValue::from_string(entry.0), CacheTier::L1));
                }
            },
            None => {},
        }
        assert(!v0.l1_hit(key@, now@));
        let warm = warm_get(&self.l2, &k);
        match warm {
            Some(entry) => {
                if entry.1 > now_n {
                    assert(self@ =~= v0.after_lookup(key@, now@));
                    return Some((CacheValue::from_string(entry.0), CacheTier::L2));
                }
                warm_remove(&mut self.l2, &k);
            },
            None => {},
        }
        assert(self@ =~= v0.after_lookup(key@, now@));
        None
    }

    /// Reads `key` at `now`: finds it in L1, else in L2, and counts a hit in
    /// the tier that served it, or a miss.
    pub fn get_at(&mut self, key: &CacheKey, now: Timestamp) -> (r: Option<CacheValue>)
        requires
            old(self).wf(),
            old(self)@.can_count(key@, now@),
        ensures
            final(self).wf(),
            final(self)@ == old(self)@.after_get(key@, now@),
            match r {
                Some(v) => old(self)@.lookup_value(key@, now@) == Some(v@),
                None => old(self)@.lookup_value(key@, now@) is None,
            },
    {
        let ghost v0 = self@;
        let found = self.get_internal(key, now);
        match found {
            Some((value, tier)) => {
                self.stats.record_hit(tier);
                assert(self@ =~= v0.after_get(key@, now@));
                Some(value)
            },
            None => {
                self.stats.record_miss();
                assert(self@ =~= v0.after_get(key@, now@));
                None
            },
        }
    }

    /// Writes `value` under `key` with TTL `ttl` at `now` into both tiers.
    pub fn set_with_ttl_at(&mut self, key: CacheKey, value: CacheValue, ttl: Ttl, now: Timestamp) -> (r: Result<(), CacheError>)
        requires
            old(self).wf(),
            is_clock_reading(now@),
        ensures
            final(self).wf(),
            final(self)@ == old(self)@.after_set(key@, value@, (now@ + ttl@) as u128),
            r is Ok,
    {
        let ghost v0 = self@;
        let expiry = now.as_nanos() + ttl.as_nanos();
        proof {
            lemma_put_wf(v0.l1, v0.l1_cap, (key@, value@, expiry), expiry_bound());
        }
        hot_put(&mut self.l1, key.to_owned_string(), value.to_owned_string(), expiry);
        warm_insert(&mut self.l2, key.to_owned_string(), value.to_owned_string(), expiry);
        assert(self@ =~= v0.after_set(key@, value@, expiry));
        Ok(())
    }

    /// Removes from L1 the slots stale at `now`, in the order the tier hands
    /// them out; says how many went.
    fn cleanup_hot(&mut self, now: Timestamp) -> (r: usize)
        requires
            old(self).wf(),
        ensures
            final(self).wf(),
            final(self)@ == (TieredView { l1: old(self)@.l1.filter(old(self)@.fresh_slot(now@)), ..old(self)@ }),
            r == old(self)@.l1.len() - old(self)@.l1.filter(old(self)@.fresh_slot(now@)).len(),
    {
        let ghost v0 = self@;
        let ghost s0 = v0.l1;
        let ghost n = s0.len();
        let now_n = now.as_nanos();
        let hot = hot_slots(&self.l1);
        let ghost snap = s0.reverse();
        proof {
            assert forall|a: int| 0 <= a < hot@.len() implies #[trigger] slot_view(hot@[a]) == snap[a] by {
                assert(hot@.map_values(|t: (String, String, u128)| slot_view(t))[a] == snap[a]);
            }
            assert(hot@.map_values(|t: (String, String, u128)| slot_view(t)).len() == hot@.len());
            lemma_filter_all(s0, v0.kept_unless_done(now@, first_keys(snap, 0)));
        }
        let mut removed: usize = 0;
        let mut i: usize = 0;
        while i < hot.len()
            invariant
                self.wf(),
                self@ == (TieredView { l1: self@.l1, ..v0 }),
                v0.wf(),
                s0 == v0.l1,
                n == s0.len(),
                snap == s0.reverse(),
                hot@.len() == n,
                forall|a: int| 0 <= a < hot@.len() ==> #[trigger] slot_view(hot@[a]) == snap[a],
                0 <= i <= hot@.len(),
                now_n == now@,
                self@.l1 == s0.filter(v0.kept_unless_done(now@, first_keys(snap, i as int))),
                removed == s0.len() - self@.l1.len(),
            decreases hot@.len() - i,
        {
            let ghost cur = self@.l1;
            let ghost done = first_keys(snap, i as int);
            let ghost done2 = first_keys(snap, i + 1);
            let ghost x = snap[i as int];
            let ghost m = n - 1 - i;
            let ghost p = v0.kept_unless_done(now@, done);
            let ghost p2 = v0.kept_unless_done(now@, done2);
            proof {
                assert(slot_view(hot@[i as int]) == snap[i as int]);
                assert(x == s0[m]);
                assert(done2 =~= done.insert(x.0)) by {
                    assert forall|k: Seq<char>| done2.contains(k) implies #[trigger] done.insert(x.0).contains(k) by {
                        let j = choose|j: int| 0 <= j < i + 1 && #[trigger] snap[j].0 == k;
                        if j < i {
                            assert(done.contains(k));
                        }
                    }
                    assert forall|k: Seq<char>| done.insert(x.0).contains(k) implies #[trigger] done2.contains(k) by {
                        if k == x.0 {
                            assert(snap[i as int].0 == k);
                        } else {
                            let j = choose|j: int| 0 <= j < i && #[trigger] snap[j].0 == k;
                            assert(snap[j].0 == k);
                        }
                    }
                }
                assert(!done.contains(x.0)) by {
                    if done.contains(x.0) {
                        let j = choose|j: int| 0 <= j < i && #[trigger] snap[j].0 == x.0;
                        assert(snap[j] == s0[n - 1 - j]);
                        assert(s0[n - 1 - j].0 == s0[m].0);
                    }
                }
                assert(x.2 <= expiry_bound());
            }
            let expiry = hot[i].2;
            assert(expiry == x.2);
            if expiry <= now_n {
                proof {
                    assert(p(x));
                    s0.lemma_filter_contains(p, m);
                    assert(has_key(cur, x.0)) by {
                        let j = choose|j: int| 0 <= j < cur.len() && cur[j] == s0[m];
                        assert(cur[j].0 == x.0);
                    }
                    lemma_filter_unique(s0, p);
                    lemma_without_present_key(cur, x.0);
                    lemma_without_wf(cur, x.0, expiry_bound());
                    lemma_filter_twice(s0, p, other_key(x.0));
                    assert forall|a: int| 0 <= a < s0.len() implies both(p, other_key(x.0))(#[trigger] s0[a]) == p2(s0[a]) by {
                        if s0[a].0 == x.0 {
                            assert(a == m);
                        }
                    }
                    lemma_filter_ext(s0, both(p, other_key(x.0)), p2);
                }
                hot_pop(&mut self.l1, &hot[i].0);
                removed = removed + 1;
            } else {
                proof {
                    assert forall|a: int| 0 <= a < s0.len() implies p(#[trigger] s0[a]) == p2(s0[a]) by {
                        if s0[a].0 == x.0 {
                            assert(a == m);
                        }
                    }
                    lemma_filter_ext(s0, p, p2);
                }
            }
            i = i + 1;
        }
        proof {
            let pn = v0.kept_unless_done(now@, first_keys(snap, n as int));
            assert forall|a: int| 0 <= a < s0.len() implies pn(#[trigger] s0[a]) == v0.fresh_slot(now@)(s0[a]) by {
                assert(snap[n - 1 - a] == s0[a]);
                assert(first_keys(snap, n as int).contains(s0[a].0));
            }
            lemma_filter_ext(s0, pn, v0.fresh_slot(now@));
        }
        assert(self@ =~= TieredView { l1: v0.l1.filter(v0.fresh_slot(now@)), ..v0 });
        removed
    }

    /// Removes from L2 the entries stale at `now`; says how many went.
    fn cleanup_warm(&mut self, now: Timestamp) -> (r: usize)
        requires
            old(self).wf(),
        ensures
            final(self).wf(),
            final(self)@ == (TieredView { l2: old(self)@.fresh_l2(now@), ..old(self)@ }),
            r == old(self)@.l2.len() - old(self)@.fresh_l2(now@).len(),
    {
        let ghost v0 = self@;
        let ghost m0 = v0.l2;
        let now_n = now.as_nanos();
        let warm = warm_slots(&self.l2);
        proof {
            assert forall|a: int| 0 <= a < warm@.len() implies entry_in(m0, #[trigger] warm@[a]) by {
                assert(map_slots(self.l2).contains_key(warm@[a].0@));
            }
        }
        let mut removed: usize = 0;
        let mut j: usize = 0;
        while j < warm.len()
            invariant
                self.wf(),
                self@ == (TieredView { l2: self@.l2, ..v0 }),
                v0.wf(),
                m0 == v0.l2,
                warm@.len() == m0.len(),
                forall|a: int, b: int| 0 <= a < warm@.len() && 0 <= b < warm@.len() && a != b ==> #[trigger] warm@[a].0@ != #[trigger] warm@[b].0@,
                forall|a: int| 0 <= a < warm@.len() ==> entry_in(m0, #[trigger] warm@[a]),
                forall|k: Seq<char>| #[trigger] m0.contains_key(k) ==> exists|a: int| 0 <= a < warm@.len() && #[trigger] warm@[a].0@ == k,
                0 <= j <= warm@.len(),
                now_n == now@,
                forall|k: Seq<char>| #[trigger] self@.l2.contains_key(k) <==> m0.contains_key(k)
                    && (v0.fresh(m0[k].1, now@) || !first_entry_keys(warm@, j as int).contains(k)),
                forall|k: Seq<char>| #[trigger] self@.l2.contains_key(k) ==> self@.l2[k] == m0[k],
                removed == m0.len() - self@.l2.len(),
                self@.l2.len() <= m0.len(),
            decreases warm@.len() - j,
        {
            let ghost cur = self@.l2;
            let ghost k = warm@[j as int].0@;
            let ghost done = first_entry_keys(warm@, j as int);
            let ghost done2 = first_entry_keys(warm@, j + 1);
            proof {
                assert(done2 =~= done.insert(k)) by {
                    assert forall|q: Seq<char>| done2.contains(q) implies #[trigger] done.insert(k).contains(q) by {
                        let b = choose|b: int| 0 <= b < j + 1 && #[trigger] warm@[b].0@ == q;
                        if b < j {
                            assert(done.contains(q));
                        }
                    }
                    assert forall|q: Seq<char>| done.insert(k).contains(q) implies #[trigger] done2.contains(q) by {
                        if q == k {
                            assert(warm@[j as int].0@ == q);
                        } else {
                            let b = choose|b: int| 0 <= b < j && #[trigger] warm@[b].0@ == q;
                            assert(warm@[b].0@ == q);
                        }
                    }
                }
                assert(!done.contains(k)) by {
                    if done.contains(k) {
                        let b = choose|b: int| 0 <= b < j && #[trigger] warm@[b].0@ == k;
                        assert(warm@[b].0@ != warm@[j as int].0@);
                    }
                }
                assert(m0.contains_key(k));
                assert(cur.contains_key(k));
            }
            let expiry = warm[j].2;
            if expiry <= now_n {
                warm_remove(&mut self.l2, &warm[j].0);
                proof {
                    assert(cur.dom().remove(k).len() == cur.dom().len() - 1);
                    assert(self@.l2.dom() == cur.dom().remove(k));
                }
                removed = removed + 1;
            }
            j = j + 1;
        }
        proof {
            let fin = first_entry_keys(warm@, warm@.len() as int);
            assert forall|k: Seq<char>| #[trigger] m0.contains_key(k) implies fin.contains(k) by {
                let a = choose|a: int| 0 <= a < warm@.len() && #[trigger] warm@[a].0@ == k;
                assert(warm@[a].0@ == k);
            }
            assert(self@.l2 =~= v0.fresh_l2(now@));
        }
        assert(self@ =~= (TieredView { l2: v0.fresh_l2(now@), ..v0 }));
        removed
    }

    /// Removes the entries of both tiers that are stale at `now`, and says
    /// how many went.
    pub fn cleanup_at(&mut self, now: Timestamp) -> (r: usize)
        requires
            old(self).wf(),
            old(self)@.l1.len() + old(self)@.l2.len() <= usize::MAX,
        ensures
            final(self).wf(),
            final(self)@ == old(self)@.after_cleanup(now@),
            r == old(self)@.cleanup_count(now@),
    {
        let ghost v0 = self@;
        proof {
            lemma_filter_sub(v0.l1, v0.fresh_slot(now@));
        }
        let from_hot = self.cleanup_hot(now);
        let ghost mid = self@;
        let from_warm = self.cleanup_warm(now);
        assert(mid.fresh_l2(now@) =~= v0.fresh_l2(now@));
        assert(self@ =~= v0.after_cleanup(now@));
        from_hot + from_warm
    }

    /// The number of entries in `tier` (none in L3).
    pub fn tier_size(&self, tier: CacheTier) -> (r: usize)
        ensures
            r == match tier {
                CacheTier::L1 => self@.l1.len(),
                CacheTier::L2 => self@.l2.len(),
                CacheTier::L3 => 0nat,
            },
    {
        match tier {
            CacheTier::L1 => hot_len(&self.l1),
            CacheTier::L2 => warm_len(&self.l2),
            CacheTier::L3 => 0,
        }
    }
}

impl TieredCache {
    /// Writes `value` under `key` with TTL `ttl`, expiring `ttl` after now.
    fn set_for(&mut self, key: CacheKey, value: CacheValue, ttl: Ttl) -> (r: Result<(), CacheError>)
        requires
            old(self).wf(),
        ensures
            r is Ok,
            exists|t: u128| #[trigger] is_clock_reading(t) && final(self).wf()
                && final(self)@ == old(self)@.after_set(key@, value@, (t + ttl@) as u128),
    {
        let now = Timestamp::now();
        self.set_with_ttl_at(key, value, ttl, now)
    }

    /// Removes the entries of both tiers that are stale now, and says how
    /// many went.
    pub fn cleanup(&mut self) -> (r: usize)
        requires
            old(self).wf(),
            old(self)@.l1.len() + old(self)@.l2.len() <= usize::MAX,
        ensures
            exists|t: u128| #[trigger] is_clock_reading(t) && final(self).wf()
                && final(self)@ == old(self)@.after_cleanup(t) && r == old(self)@.cleanup_count(t),
    {
        let now = Timestamp::now();
        self.cleanup_at(now)
    }
}

impl Default for TieredCache {
    fn default() -> (r: TieredCache)
        ensures
            r.wf(),
            r@ == TieredView::initial(1000, default_ttl_nanos()),
    {
        TieredCache::new()
    }
}

impl CachePort for TieredCache {
    open spec fn read_ready(&self, key: Seq<char>) -> bool {
        self.wf() && forall|t: u128| #[trigger] is_clock_reading(t) ==> self@.can_count(key, t)
    }

    open spec fn entry_ready(&self) -> bool {
        self.wf()
    }

    open spec fn read_step(self, post: Self, key: Seq<char>, found: Option<Seq<char>>) -> bool {
        exists|t: u128| #[trigger] is_clock_reading(t) && post.wf()
            && post@ == self@.after_get(key, t) && found == self@.lookup_value(key, t)
    }

    open spec fn entry_step(self, post: Self, key: Seq<char>, found: Option<Seq<char>>) -> bool {
        exists|t: u128| #[trigger] is_clock_reading(t) && post.wf()
            && post@ == self@.after_lookup(key, t) && found == self@.lookup_value(key, t)
    }

    /// Reads `key` now: L1, then L2; counts a hit or a miss.
    fn get(&mut self, key: &CacheKey) -> (r: Option<CacheValue>) {
        let now = Timestamp::now();
        self.get_at(key, now)
    }

    /// Looks `key` up now, without counting, and makes a fresh entry of
    /// what it finds: default TTL, tier L1, no hits.
    fn get_entry(&mut self, key: &CacheKey) -> (r: Option<CacheEntry>)
        ensures
            r matches Some(e) ==> e.is_new_entry(key@, e.value@, default_ttl_nanos(), e.created_at@),
    {
        let now = Timestamp::now();
        let found = self.get_internal(key, now);
        match found {
            Some((value, _tier)) => Some(CacheEntry::new(CacheKey::from(key.to_owned_string()), value)),
            None => None,
        }
    }
}

impl CacheWritePort for TieredCache {
    open spec fn write_ready(&self) -> bool {
        self.wf()
    }

    open spec fn clear_ready(&self, tier: Option<CacheTier>) -> bool {
        self.wf() && (tier is None ==> self@.l1.len() + self@.l2.len() <= usize::MAX)
    }

    open spec fn set_step(self, post: Self, key: Seq<char>, value: Seq<char>, ttl: Option<Ttl>) -> bool {
        let span = match ttl {
            Some(t) => t@,
            None => self@.default_ttl,
        };
        exists|t: u128| #[trigger] is_clock_reading(t) && post.wf()
            && post@ == self@.after_set(key, value, (t + span) as u128)
    }

    open spec fn set_fails(self, post: Self, key: Seq<char>, value: Seq<char>, ttl: Option<Ttl>, error: CacheError) -> bool {
        false
    }

    open spec fn remove_step(self, post: Self, key: Seq<char>) -> bool {
        post.wf() && post@ == self@.after_remove(key)
    }

    open spec fn remove_fails(self, post: Self, key: Seq<char>, error: CacheError) -> bool {
        false
    }

    open spec fn clear_step(self, post: Self, tier: Option<CacheTier>, count: nat) -> bool {
        post.wf() && post@ == self@.after_clear(tier) && count == self@.clear_count(tier)
    }

    /// Writes `value` under `key` with the cache's default TTL, in both tiers.
    fn set(&mut self, key: CacheKey, value: CacheValue) -> (r: Result<(), CacheError>)
        ensures
            r is Ok,
    {
        let ttl = self.default_ttl;
        self.set_for(key, value, ttl)
    }

    /// Writes `value` under `key` with TTL `ttl`, in both tiers.
    fn set_with_ttl(&mut self, key: CacheKey, value: CacheValue, ttl: Ttl) -> (r: Result<(), CacheError>)
        ensures
            r is Ok,
    {
        self.set_for(key, value, ttl)
    }

    /// Removes `key` from both tiers.
    fn remove(&mut self, key: &CacheKey) -> (r: Result<(), CacheError>)
        ensures
            r is Ok,
    {
        let ghost v0 = self@;
        let k = key.to_owned_string();
        proof {
            lemma_without_wf(v0.l1, k@, expiry_bound());
        }
        hot_pop(&mut self.l1, &k);
        warm_remove(&mut self.l2, &k);
        assert(self@ =~= v0.after_remove(key@));
        Ok(())
    }

    /// Clears `tier`, or both tiers for `None`, and says how many entries
    /// went (an entry in both tiers counts twice).
    fn clear(&mut self, tier: Option<CacheTier>) -> (r: Result<usize, CacheError>)
        ensures
            r is Ok,
    {
        let ghost v0 = self@;
        let count: usize;
        match tier {
            Some(CacheTier::L1) => {
                count = hot_len(&self.l1);
                hot_clear(&mut self.l1);
            },
            Some(CacheTier::L2) => {
                count = warm_len(&self.l2);
                warm_clear(&mut self.l2);
            },
            Some(CacheTier::L3) => {
                count = 0;
            },
            None => {
                count = hot_len(&self.l1) + warm_len(&self.l2);
                hot_clear(&mut self.l1);
                warm_clear(&mut self.l2);
            },
        }
        assert(self@ =~= v0.after_clear(tier));
        Ok(count)
    }
}

impl StatsPort for TieredCache {
    open spec fn stats_ready(&self) -> bool {
        self.wf()
    }

    open spec fn stats_view(&self) -> StatsView {
        self@.reported_stats()
    }

    /// The counters, with the size of both tiers (an entry in both counts
    /// twice).
    fn get_stats(&self) -> (r: CacheStats)
        ensures
            r.size == self@.l1.len() + self@.l2.len(),
    {
        let size = hot_len(&self.l1) + warm_len(&self.l2);
        self.stats.copy_with_size(size)
    }

    fn record_hit(&mut self, tier: CacheTier)
        ensures
            final(self)@ == (TieredView { stats: old(self)@.stats.with_hit(tier), ..old(self)@ }),
    {
        self.stats.record_hit(tier);
    }

    fn record_miss(&mut self)
        ensures
            final(self)@ == (TieredView { stats: old(self)@.stats.with_miss(), ..old(self)@ }),
    {
        self.stats.record_miss();
    }

    fn record_eviction(&mut self)
        ensures
            final(self)@ == (TieredView { stats: old(self)@.stats.with_eviction(), ..old(self)@ }),
    {
        self.stats.record_eviction();
    }

    fn reset(&mut self)
        ensures
            final(self)@ == (TieredView { stats: StatsView::zeroed(0), ..old(self)@ }),
    {
        self.stats = CacheStats::new();
    }
}

impl EventPort for TieredCache {
    open spec fn published(&self) -> Seq<CacheEvent> {
        self@.events
    }

    open spec fn refuses(&self, event: CacheEvent, message: Seq<char>) -> bool {
        false
    }

    /// Keeps `event`; never fails.
    fn publish(&mut self, event: CacheEvent) -> (r: Result<(), String>)
        ensures
            r is Ok,
            final(self)@ == (TieredView { events: old(self)@.events.push(event), ..old(self)@ }),
            old(self).wf() ==> final(self).wf(),
    {
        self.events.push(event);
        Ok(())
    }
}

} // verus!
