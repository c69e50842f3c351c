//! What holds of the two-tier cache across its operations.

use vstd::prelude::*;
use crate::adapters::hot_tier::{
    has_key, key_index, keys_unique, lemma_filter_ext, lemma_filter_sub, lemma_filter_unique,
    lemma_put_wf, lemma_touched_wf, lemma_without_absent_key, lemma_without_present_key,
    lru_put, lru_touched, other_key, without_key, Slot,
};
use crate::adapters::inmemory::{expiry_bound, TieredCache, TieredView};
use crate::domain::value_objects::{CacheTier, Ttl};
use crate::ports::driven::{CacheWritePort, StatsPort};

verus! {

broadcast use {vstd::map::group_map_axioms, vstd::set::group_set_axioms};

/// The slot of `k` in well-formed slots `s` is the one slot of `s` with key
/// `k`.
proof fn lemma_the_slot(s: Seq<Slot>, k: Seq<char>, i: int)
    requires
        keys_unique(s),
        0 <= i < s.len(),
        s[i].0 == k,
    ensures
        has_key(s, k),
        key_index(s, k) == i,
{
    assert(s[i].0 == k);
}

/// A read gives back what the last write wrote: after `value` is written
/// under `k` with expiry `expiry`, a read of `k` at any time before the
/// expiry finds `value`, in L1.
pub proof fn lemma_read_after_write(v: TieredView, k: Seq<char>, value: Seq<char>, expiry: u128, now: u128)
    requires
        v.wf(),
        expiry <= expiry_bound(),
        now < expiry,
    ensures
        v.after_set(k, value, expiry).lookup(k, now) == Some((value, CacheTier::L1)),
{
    let slot = (k, value, expiry);
    let s = v.l1;
    let s1 = lru_put(s, v.l1_cap, slot);
    lemma_put_wf(s, v.l1_cap, slot, expiry_bound());
    let rest = if has_key(s, k) {
        lemma_without_present_key(s, k);
        without_key(s, k)
    } else if s.len() < v.l1_cap {
        s
    } else {
        s.drop_first()
    };
    assert(s1 == rest.push(slot));
    assert(s1[s1.len() - 1] == slot);
    lemma_the_slot(s1, k, s1.len() - 1);
}

/// A written entry is not served once expired: from its expiry on (at once
/// for a zero TTL), a read of its key finds nothing in either tier.
pub proof fn lemma_stale_not_served(v: TieredView, k: Seq<char>, value: Seq<char>, expiry: u128, now: u128)
    requires
        v.wf(),
        expiry <= expiry_bound(),
        now >= expiry,
    ensures
        v.after_set(k, value, expiry).lookup(k, now) is None,
{
    let slot = (k, value, expiry);
    let s = v.l1;
    let s1 = lru_put(s, v.l1_cap, slot);
    lemma_put_wf(s, v.l1_cap, slot, expiry_bound());
    let rest = if has_key(s, k) {
        lemma_without_present_key(s, k);
        without_key(s, k)
    } else if s.len() < v.l1_cap {
        s
    } else {
        s.drop_first()
    };
    assert(s1 == rest.push(slot));
    assert(s1[s1.len() - 1] == slot);
    lemma_the_slot(s1, k, s1.len() - 1);
}

/// A removed key is found in neither tier, at any time.
pub proof fn lemma_removed_is_gone(v: TieredView, k: Seq<char>, now: u128)
    requires
        v.wf(),
    ensures
        v.after_remove(k).lookup(k, now) is None,
{
    if has_key(v.l1, k) {
        lemma_without_present_key(v.l1, k);
    } else {
        lemma_without_absent_key(v.l1, k);
    }
}

/// After a clear of every tier nothing is found, and the clear reports
/// the entries of both tiers.
pub proof fn lemma_cleared_is_empty(v: TieredView, k: Seq<char>, now: u128)
    ensures
        v.after_clear(None).lookup(k, now) is None,
        v.clear_count(None) == v.l1.len() + v.l2.len(),
{
}

/// Every counted read adds exactly one to the hits or to the misses.
pub proof fn lemma_read_counts_once(v: TieredView, k: Seq<char>, now: u128)
    ensures
        v.after_get(k, now).stats.hits + v.after_get(k, now).stats.misses == v.stats.hits + v.stats.misses + 1,
        v.after_get(k, now).stats.hits == v.stats.hits + if v.lookup(k, now) is Some { 1int } else { 0int },
{
}

/// An entry that the least-recently-used tier evicts to make room is still
/// served, by L2, while fresh.
pub proof fn lemma_evicted_served_by_l2(v: TieredView, k: Seq<char>, value: Seq<char>, expiry: u128, now: u128)
    requires
        v.wf(),
        v.l1.len() == v.l1_cap,
        !has_key(v.l1, k),
        v.l2.contains_key(v.l1[0].0),
        v.fresh(v.l2[v.l1[0].0].1, now),
    ensures
        v.after_set(k, value, expiry).lookup(v.l1[0].0, now) == Some((v.l2[v.l1[0].0].0, CacheTier::L2)),
{
    let s = v.l1;
    let k1 = s[0].0;
    let s1 = s.drop_first().push((k, value, expiry));
    assert(k1 != k);
    assert(v.after_set(k, value, expiry).l1 == s1);
    assert(!has_key(s1, k1)) by {
        if has_key(s1, k1) {
            let j = choose|j: int| 0 <= j < s1.len() && #[trigger] s1[j].0 == k1;
            if j < s1.len() - 1 {
                assert(s1[j] == s[j + 1]);
                assert(s[j + 1].0 == s[0].0);
            }
        }
    }
}

/// A cleanup changes nothing that a read at the same time finds.
pub proof fn lemma_cleanup_keeps_reads(v: TieredView, k: Seq<char>, now: u128)
    requires
        v.wf(),
    ensures
        v.after_cleanup(now).lookup(k, now) == v.lookup(k, now),
{
    let s = v.l1;
    let p = v.fresh_slot(now);
    let f = s.filter(p);
    lemma_filter_sub(s, p);
    lemma_filter_unique(s, p);
    let c = v.after_cleanup(now);
    assert(c.l1 == f);
    if v.l1_hit(k, now) {
        let i = key_index(s, k);
        s.lemma_filter_contains(p, i);
        let j = choose|j: int| 0 <= j < f.len() && f[j] == s[i];
        lemma_the_slot(f, k, j);
    } else {
        assert(!has_key(f, k)) by {
            if has_key(f, k) {
                let j = choose|j: int| 0 <= j < f.len() && #[trigger] f[j].0 == k;
                assert(s.contains(f[j]));
                let m = choose|m: int| 0 <= m < s.len() && s[m] == f[j];
                lemma_the_slot(s, k, m);
            }
        }
        assert(c.l2_hit(k, now) == v.l2_hit(k, now));
    }
}

/// After a cleanup every entry left is fresh.
pub proof fn lemma_cleanup_leaves_fresh(v: TieredView, now: u128)
    ensures
        forall|i: int| 0 <= i < v.after_cleanup(now).l1.len() ==> v.fresh(#[trigger] v.after_cleanup(now).l1[i].2, now),
        forall|k: Seq<char>| #[trigger] v.after_cleanup(now).l2.contains_key(k) ==> v.fresh(v.after_cleanup(now).l2[k].1, now),
{
    lemma_filter_sub(v.l1, v.fresh_slot(now));
}

/// Dropping the slot of `k` is keeping the slots whose key is not `k`.
proof fn lemma_without_is_filter(s: Seq<Slot>, k: Seq<char>)
    ensures
        without_key(s, k) == s.filter(|x: Slot| x.0 != k),
{
    lemma_filter_ext(s, other_key(k), |x: Slot| x.0 != k);
}

/// A read makes the key's L1 slot the most recently used: after the read
/// L1 holds the same number of slots, the key's slot last, and the other
/// slots in their old order before it. A read of a key L1 does not hold
/// leaves L1 as it was.
pub proof fn lemma_read_refreshes_recency(v: TieredView, k: Seq<char>, now: u128)
    requires
        v.wf(),
    ensures
        forall|i: int| 0 <= i < v.l1.len() && #[trigger] v.l1[i].0 == k ==> {
            &&& v.after_get(k, now).l1.len() == v.l1.len()
            &&& v.after_get(k, now).l1.last() == v.l1[i]
            &&& v.after_get(k, now).l1.drop_last() == v.l1.filter(|x: Slot| x.0 != k)
        },
        (forall|i: int| 0 <= i < v.l1.len() ==> #[trigger] v.l1[i].0 != k) ==> v.after_get(k, now).l1 == v.l1,
{
    let w = v.after_get(k, now).l1;
    assert(w == lru_touched(v.l1, k));
    lemma_without_is_filter(v.l1, k);
    assert forall|i: int| 0 <= i < v.l1.len() && #[trigger] v.l1[i].0 == k implies {
        &&& w.len() == v.l1.len()
        &&& w.last() == v.l1[i]
        &&& w.drop_last() == v.l1.filter(|x: Slot| x.0 != k)
    } by {
        lemma_the_slot(v.l1, k, i);
        lemma_without_present_key(v.l1, k);
        assert(w.drop_last() =~= without_key(v.l1, k));
    }
    if forall|i: int| 0 <= i < v.l1.len() ==> #[trigger] v.l1[i].0 != k {
        assert(!has_key(v.l1, k));
    }
}

/// Because a read refreshes recency, a key read just before a write of a
/// new key into a full L1 (of capacity two or more) stays in L1: read again
/// while fresh, it is an L1 hit with its value.
pub proof fn lemma_read_protects_from_eviction(
    v: TieredView,
    a: Seq<char>,
    i: int,
    c: Seq<char>,
    value: Seq<char>,
    expiry: u128,
    t1: u128,
    t2: u128,
)
    requires
        v.wf(),
        v.l1_cap >= 2,
        v.l1.len() == v.l1_cap,
        0 <= i < v.l1.len(),
        v.l1[i].0 == a,
        v.l1[i].2 > t2,
        !has_key(v.l1, c),
        expiry <= expiry_bound(),
    ensures
        v.after_get(a, t1).after_set(c, value, expiry).lookup(a, t2) == Some((v.l1[i].1, CacheTier::L1)),
{
    let s = v.l1;
    let w1 = v.after_get(a, t1);
    lemma_the_slot(s, a, i);
    lemma_without_present_key(s, a);
    lemma_touched_wf(s, a, expiry_bound());
    let rest = without_key(s, a);
    assert(w1.l1 == rest.push(s[i]));
    assert(w1.wf());
    assert(!has_key(w1.l1, c)) by {
        lemma_filter_sub(s, other_key(a));
        if has_key(w1.l1, c) {
            let j = choose|j: int| 0 <= j < w1.l1.len() && #[trigger] w1.l1[j].0 == c;
            if j < rest.len() {
                assert(w1.l1[j] == rest[j]);
                assert(s.contains(rest[j]));
                let m = choose|m: int| 0 <= m < s.len() && s[m] == rest[j];
                assert(s[m].0 == c);
            } else {
                assert(w1.l1[j] == s[i]);
            }
        }
    }
    let slot = (c, value, expiry);
    lemma_put_wf(w1.l1, w1.l1_cap, slot, expiry_bound());
    let w2 = w1.after_set(c, value, expiry);
    assert(w2.l1 == w1.l1.drop_first().push(slot));
    let last = w1.l1.len() - 1;
    assert(w2.l1[last - 1] == w1.l1[last]);
    lemma_the_slot(w2.l1, a, last - 1);
}

/// A write without a TTL is a write with the cache's configured default TTL
/// (the one given to `with_config`).
pub proof fn lemma_set_uses_default_ttl(c: TieredCache, post: TieredCache, k: Seq<char>, value: Seq<char>, ttl: Ttl)
    requires
        ttl@ == c@.default_ttl,
    ensures
        c.set_step(post, k, value, None) == c.set_step(post, k, value, Some(ttl)),
{
}

/// A clear reaches only the tiers it names: clearing L1 keeps L2, clearing
/// L2 keeps L1, clearing L3 keeps everything, clearing every tier empties
/// both; each reports the entries of the tiers it empties; counters and
/// events are untouched. After a clear of L2, whatever L1 served is still
/// served.
pub proof fn lemma_clear_reaches_only_its_tier(v: TieredView, k: Seq<char>, now: u128)
    ensures
        v.after_clear(Some(CacheTier::L1)).l1.len() == 0,
        v.after_clear(Some(CacheTier::L1)).l2 == v.l2,
        v.after_clear(Some(CacheTier::L2)).l1 == v.l1,
        v.after_clear(Some(CacheTier::L2)).l2.dom().len() == 0,
        v.after_clear(Some(CacheTier::L3)) == v,
        v.after_clear(None).l1.len() == 0,
        v.after_clear(None).l2.dom().len() == 0,
        v.clear_count(Some(CacheTier::L1)) == v.l1.len(),
        v.clear_count(Some(CacheTier::L2)) == v.l2.len(),
        v.clear_count(Some(CacheTier::L3)) == 0,
        v.clear_count(None) == v.l1.len() + v.l2.len(),
        forall|t: Option<CacheTier>| #[trigger] v.after_clear(t).stats == v.stats && v.after_clear(t).events == v.events,
        (v.lookup(k, now) matches Some(p) && p.1 == CacheTier::L1) ==> v.after_clear(Some(CacheTier::L2)).lookup(k, now) == v.lookup(k, now),
{
    assert(v.after_clear(Some(CacheTier::L2)).l2.dom() =~= Set::<Seq<char>>::empty());
    assert(v.after_clear(None).l2.dom() =~= Set::<Seq<char>>::empty());
}

/// A removal touches only its key: every other key reads as before, L1
/// keeps the other slots in their order, and L2 the other entries.
pub proof fn lemma_remove_keeps_others(v: TieredView, k: Seq<char>, other: Seq<char>, now: u128)
    requires
        v.wf(),
        other != k,
    ensures
        v.after_remove(k).lookup(other, now) == v.lookup(other, now),
        v.after_remove(k).l1 == v.l1.filter(|x: Slot| x.0 != k),
        v.after_remove(k).l2.contains_key(other) == v.l2.contains_key(other),
        v.l2.contains_key(other) ==> v.after_remove(k).l2[other] == v.l2[other],
{
    let s = v.l1;
    let f = without_key(s, k);
    lemma_without_is_filter(s, k);
    lemma_filter_sub(s, other_key(k));
    lemma_filter_unique(s, other_key(k));
    if has_key(s, other) {
        let i = key_index(s, other);
        s.lemma_filter_contains(other_key(k), i);
        let j = choose|j: int| 0 <= j < f.len() && f[j] == s[i];
        lemma_the_slot(f, other, j);
    } else {
        assert(!has_key(f, other)) by {
            if has_key(f, other) {
                let j = choose|j: int| 0 <= j < f.len() && #[trigger] f[j].0 == other;
                assert(s.contains(f[j]));
                let m = choose|m: int| 0 <= m < s.len() && s[m] == f[j];
                assert(s[m].0 == other);
            }
        }
    }
}

/// The size that the statistics report is the number of L1 slots plus the
/// number of L2 entries: what `tier_size` gives for L1 and for L2.
pub proof fn lemma_reported_size(c: &TieredCache)
    ensures
        c.stats_view().size == c@.l1.len() + c@.l2.len(),
        c.stats_view().hits == c@.stats.hits,
        c.stats_view().misses == c@.stats.misses,
{
}

} // verus!
