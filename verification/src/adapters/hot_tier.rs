//! The hot tier: an `lru::LruCache` from key text to value text and expiry.
//!
//! Its contents are modelled as a sequence of slots `(key, value, expiry)`
//! from the least recently used (first) to the most recently used (last),
//! with no key twice.

use vstd::prelude::*;
use lru::LruCache;
use std::num::NonZeroUsize;

verus! {

broadcast use vstd::seq_lib::group_seq_properties;

#[verifier::external_type_specification]
#[verifier::external_body]
#[verifier::reject_recursive_types(K)]
#[verifier::reject_recursive_types(V)]
#[verifier::reject_recursive_types(S)]
pub struct ExLruCache<K, V, S>(LruCache<K, V, S>);

#[verifier::external_type_specification]
#[verifier::external_body]
pub struct ExLruDefaultHasher(lru::DefaultHasher);

/// A slot of a tier: key text, value text, expiry in nanoseconds.
pub type Slot = (Seq<char>, Seq<char>, u128);

/// What an `LruCache` holds, from least to most recently used.
pub uninterp spec fn lru_slots(c: LruCache<String, (String, u128)>) -> Seq<(Seq<char>, Seq<char>, u128)>;

/// The capacity an `LruCache` was made with.
pub uninterp spec fn lru_capacity(c: LruCache<String, (String, u128)>) -> nat;

/// No key occurs in two slots.
pub open spec fn keys_unique(s: Seq<Slot>) -> bool {
    forall|i: int, j: int| 0 <= i < s.len() && 0 <= j < s.len() && i != j ==> #[trigger] s[i].0 != #[trigger] s[j].0
}

/// Some slot holds key `k`.
pub open spec fn has_key(s: Seq<Slot>, k: Seq<char>) -> bool {
    exists|i: int| 0 <= i < s.len() && #[trigger] s[i].0 == k
}

/// The position of the slot that holds key `k`.
pub open spec fn key_index(s: Seq<Slot>, k: Seq<char>) -> int {
    choose|i: int| 0 <= i < s.len() && #[trigger] s[i].0 == k
}

/// Whether a slot's key is other than `k`.
pub open spec fn other_key(k: Seq<char>) -> spec_fn(Slot) -> bool {
    |x: Slot| x.0 != k
}

/// The slots whose key is not `k`.
pub open spec fn without_key(s: Seq<Slot>, k: Seq<char>) -> Seq<Slot> {
    s.filter(other_key(k))
}

/// The slots after a read of `k`: a slot found moves to the most recent end.
pub open spec fn lru_touched(s: Seq<Slot>, k: Seq<char>) -> Seq<Slot> {
    if has_key(s, k) {
        without_key(s, k).push(s[key_index(s, k)])
    } else {
        s
    }
}

/// The slots after `slot` is put: it replaces the slot of its key, or is
/// added, the least recently used slot giving way when `cap` slots are full;
/// either way it becomes the most recent.
pub open spec fn lru_put(s: Seq<Slot>, cap: nat, slot: Slot) -> Seq<Slot> {
    if has_key(s, slot.0) {
        without_key(s, slot.0).push(slot)
    } else if s.len() < cap {
        s.push(slot)
    } else {
        s.drop_first().push(slot)
    }
}

/// Every slot's expiry is at most `bound`.
pub open spec fn expiries_within(s: Seq<Slot>, bound: nat) -> bool {
    forall|i: int| 0 <= i < s.len() ==> #[trigger] s[i].2 <= bound
}

/// A filter keeps only slots that were there, in their order.
pub proof fn lemma_filter_sub(s: Seq<Slot>, p: spec_fn(Slot) -> bool)
    ensures
        forall|i: int| 0 <= i < s.filter(p).len() ==> s.contains(#[trigger] s.filter(p)[i]) && p(s.filter(p)[i]),
        s.filter(p).len() <= s.len(),
{
    let f = s.filter(p);
    s.lemma_filter_len(p);
    assert forall|i: int| 0 <= i < f.len() implies s.contains(#[trigger] f[i]) && p(f[i]) by {
        assert(f.contains(f[i]));
        s.lemma_filter_contains_rev(p, f[i]);
        s.lemma_filter_pred(p, i);
    }
}

/// Filtering keeps keys unique.
pub proof fn lemma_filter_unique(s: Seq<Slot>, p: spec_fn(Slot) -> bool)
    requires
        keys_unique(s),
    ensures
        keys_unique(s.filter(p)),
    decreases s.len(),
{
    reveal(Seq::filter);
    if s.len() > 0 {
        let init = s.drop_last();
        assert(keys_unique(init));
        lemma_filter_unique(init, p);
        lemma_filter_sub(init, p);
        let fi = init.filter(p);
        assert(s.filter(p) == if p(s.last()) { fi.push(s.last()) } else { fi }) by {
            assert(s.drop_last() == init);
        }
        if p(s.last()) {
            assert forall|i: int| 0 <= i < fi.len() implies #[trigger] fi[i].0 != s.last().0 by {
                assert(init.contains(fi[i]));
                let j = choose|j: int| 0 <= j < init.len() && init[j] == fi[i];
                assert(s[j] == init[j]);
                assert(s[s.len() - 1] == s.last());
            }
            let t = fi.push(s.last());
            assert forall|i: int, j: int| 0 <= i < t.len() && 0 <= j < t.len() && i != j implies #[trigger] t[i].0 != #[trigger] t[j].0 by {
                if i < fi.len() && j < fi.len() {
                } else if i < fi.len() {
                    assert(t[j] == s.last());
                } else {
                    assert(t[i] == s.last());
                }
            }
        }
    }
}

/// Filtering keeps every slot's expiry within a bound.
pub proof fn lemma_filter_within(s: Seq<Slot>, p: spec_fn(Slot) -> bool, bound: nat)
    requires
        expiries_within(s, bound),
    ensures
        expiries_within(s.filter(p), bound),
{
    lemma_filter_sub(s, p);
    assert forall|i: int| 0 <= i < s.filter(p).len() implies #[trigger] s.filter(p)[i].2 <= bound by {
        assert(s.contains(s.filter(p)[i]));
    }
}

/// Dropping the only slot of a present key shortens the slots by one.
pub proof fn lemma_without_present_key(s: Seq<Slot>, k: Seq<char>)
    requires
        keys_unique(s),
        has_key(s, k),
    ensures
        without_key(s, k).len() == s.len() - 1,
        !has_key(without_key(s, k), k),
    decreases s.len(),
{
    reveal(Seq::filter);
    let p = other_key(k);
    let init = s.drop_last();
    assert(s.drop_last() == init);
    lemma_filter_sub(s, p);
    if s.last().0 == k {
        assert(!has_key(init, k)) by {
            if has_key(init, k) {
                let j = choose|j: int| 0 <= j < init.len() && #[trigger] init[j].0 == k;
                assert(s[j].0 == s[s.len() - 1].0);
            }
        }
        lemma_without_absent_key(init, k);
    } else {
        assert(has_key(init, k)) by {
            let j = choose|j: int| 0 <= j < s.len() && #[trigger] s[j].0 == k;
            assert(j != s.len() - 1);
            assert(init[j].0 == k);
        }
        assert(keys_unique(init));
        lemma_without_present_key(init, k);
    }
    assert(!has_key(without_key(s, k), k)) by {
        if has_key(without_key(s, k), k) {
            let j = choose|j: int| 0 <= j < without_key(s, k).len() && #[trigger] without_key(s, k)[j].0 == k;
            assert(p(without_key(s, k)[j]));
        }
    }
}

/// Dropping an absent key changes nothing.
pub proof fn lemma_without_absent_key(s: Seq<Slot>, k: Seq<char>)
    requires
        !has_key(s, k),
    ensures
        without_key(s, k) == s,
    decreases s.len(),
{
    reveal(Seq::filter);
    if s.len() > 0 {
        let init = s.drop_last();
        assert(s.drop_last() == init);
        assert(!has_key(init, k)) by {
            if has_key(init, k) {
                let j = choose|j: int| 0 <= j < init.len() && #[trigger] init[j].0 == k;
                assert(s[j].0 == k);
            }
        }
        lemma_without_absent_key(init, k);
        assert(s.last().0 != k) by {
            assert(s[s.len() - 1] == s.last());
        }
        assert(init.push(s.last()) =~= s);
    }
}

/// A read keeps the slots well formed.
pub proof fn lemma_touched_wf(s: Seq<Slot>, k: Seq<char>, bound: nat)
    requires
        keys_unique(s),
        expiries_within(s, bound),
    ensures
        keys_unique(lru_touched(s, k)),
        expiries_within(lru_touched(s, k), bound),
        lru_touched(s, k).len() == s.len(),
{
    if has_key(s, k) {
        let i = key_index(s, k);
        let w = without_key(s, k);
        lemma_without_present_key(s, k);
        lemma_filter_unique(s, other_key(k));
        lemma_filter_within(s, other_key(k), bound);
        lemma_push_unique(w, s[i]);
        let t = w.push(s[i]);
        assert forall|j: int| 0 <= j < t.len() implies #[trigger] t[j].2 <= bound by {
            if j < w.len() {
                assert(t[j] == w[j]);
            }
        }
    }
}

/// Adding a slot whose key is absent keeps keys unique.
pub proof fn lemma_push_unique(s: Seq<Slot>, slot: Slot)
    requires
        keys_unique(s),
        !has_key(s, slot.0),
    ensures
        keys_unique(s.push(slot)),
{
    let t = s.push(slot);
    assert forall|i: int, j: int| 0 <= i < t.len() && 0 <= j < t.len() && i != j implies #[trigger] t[i].0 != #[trigger] t[j].0 by {
        if i < s.len() && j < s.len() {
            assert(t[i] == s[i] && t[j] == s[j]);
        } else if i < s.len() {
            assert(t[i] == s[i]);
        } else {
            assert(t[j] == s[j]);
        }
    }
}

/// A put keeps the slots well formed and within capacity.
pub proof fn lemma_put_wf(s: Seq<Slot>, cap: nat, slot: Slot, bound: nat)
    requires
        keys_unique(s),
        expiries_within(s, bound),
        s.len() <= cap,
        cap > 0,
        slot.2 <= bound,
    ensures
        keys_unique(lru_put(s, cap, slot)),
        expiries_within(lru_put(s, cap, slot), bound),
        lru_put(s, cap, slot).len() <= cap,
{
    if has_key(s, slot.0) {
        lemma_without_present_key(s, slot.0);
        lemma_filter_unique(s, other_key(slot.0));
        lemma_filter_within(s, other_key(slot.0), bound);
        lemma_push_unique(without_key(s, slot.0), slot);
    } else if s.len() < cap {
        lemma_push_unique(s, slot);
    } else {
        let d = s.drop_first();
        assert(keys_unique(d)) by {
            assert forall|i: int, j: int| 0 <= i < d.len() && 0 <= j < d.len() && i != j implies #[trigger] d[i].0 != #[trigger] d[j].0 by {
                assert(d[i] == s[i + 1] && d[j] == s[j + 1]);
            }
        }
        assert(!has_key(d, slot.0)) by {
            if has_key(d, slot.0) {
                let j = choose|j: int| 0 <= j < d.len() && #[trigger] d[j].0 == slot.0;
                assert(s[j + 1].0 == slot.0);
            }
        }
        assert(expiries_within(d, bound)) by {
            assert forall|i: int| 0 <= i < d.len() implies #[trigger] d[i].2 <= bound by {
                assert(d[i] == s[i + 1]);
            }
        }
        lemma_push_unique(d, slot);
    }
}

/// A removal keeps the slots well formed.
pub proof fn lemma_without_wf(s: Seq<Slot>, k: Seq<char>, bound: nat)
    requires
        keys_unique(s),
        expiries_within(s, bound),
    ensures
        keys_unique(without_key(s, k)),
        expiries_within(without_key(s, k), bound),
        without_key(s, k).len() <= s.len(),
{
    lemma_filter_unique(s, other_key(k));
    lemma_filter_within(s, other_key(k), bound);
    lemma_filter_sub(s, other_key(k));
}

/// Both predicates hold.
pub open spec fn both(p: spec_fn(Slot) -> bool, q: spec_fn(Slot) -> bool) -> spec_fn(Slot) -> bool {
    |x: Slot| p(x) && q(x)
}

/// Predicates that agree on every slot filter alike.
pub proof fn lemma_filter_ext(s: Seq<Slot>, p: spec_fn(Slot) -> bool, q: spec_fn(Slot) -> bool)
    requires
        forall|i: int| 0 <= i < s.len() ==> p(#[trigger] s[i]) == q(s[i]),
    ensures
        s.filter(p) == s.filter(q),
    decreases s.len(),
{
    reveal(Seq::filter);
    if s.len() > 0 {
        let init = s.drop_last();
        assert forall|i: int| 0 <= i < init.len() implies p(#[trigger] init[i]) == q(init[i]) by {
            assert(init[i] == s[i]);
        }
        lemma_filter_ext(init, p, q);
        assert(s.last() == s[s.len() - 1]);
    }
}

/// Filtering twice is filtering once by both predicates.
pub proof fn lemma_filter_twice(s: Seq<Slot>, p: spec_fn(Slot) -> bool, q: spec_fn(Slot) -> bool)
    ensures
        s.filter(p).filter(q) == s.filter(both(p, q)),
    decreases s.len(),
{
    reveal(Seq::filter);
    if s.len() > 0 {
        let init = s.drop_last();
        lemma_filter_twice(init, p, q);
        let x = s.last();
        if p(x) {
            init.filter(p).lemma_filter_push(x, q);
        }
    }
}

/// A predicate that holds of every slot lets every slot through.
pub proof fn lemma_filter_all(s: Seq<Slot>, p: spec_fn(Slot) -> bool)
    requires
        forall|i: int| 0 <= i < s.len() ==> p(#[trigger] s[i]),
    ensures
        s.filter(p) == s,
    decreases s.len(),
{
    reveal(Seq::filter);
    if s.len() > 0 {
        let init = s.drop_last();
        assert forall|i: int| 0 <= i < init.len() implies p(#[trigger] init[i]) by {
            assert(init[i] == s[i]);
        }
        lemma_filter_all(init, p);
        assert(s.last() == s[s.len() - 1]);
        assert(init.push(s.last()) =~= s);
    }
}

/// Calls `LruCache::new`. The contract claims that the cache starts empty
/// with capacity `cap`; the capacity is made non-zero by `requires`, so the
/// conversion cannot panic.
#[verifier::external_body]
pub fn hot_new(cap: usize) -> (r: LruCache<String, (String, u128)>)
    requires
        cap > 0,
    ensures
        lru_slots(r) == Seq::<Slot>::empty(),
        lru_capacity(r) == cap,
{
    LruCache::new(NonZeroUsize::new(cap).unwrap())
}

/// Calls `LruCache::put`. The contract claims what the crate's source does:
/// the value replaces that of a present key, or a new entry is added, the
/// least recently used one giving way when the cache is full; either way the
/// entry becomes the most recently used.
#[verifier::external_body]
pub fn hot_put(c: &mut LruCache<String, (String, u128)>, key: String, value: String, expiry: u128)
    requires
        keys_unique(lru_slots(*old(c))),
        lru_slots(*old(c)).len() <= lru_capacity(*old(c)),
    ensures
        lru_slots(*final(c)) == lru_put(lru_slots(*old(c)), lru_capacity(*old(c)), (key@, value@, expiry)),
        lru_capacity(*final(c)) == lru_capacity(*old(c)),
{
    c.put(key, (value, expiry));
}

/// Calls `LruCache::get` and clones what it finds. The contract claims that
/// the value and expiry of the key's slot come back, and that a slot found
/// becomes the most recently used.
#[verifier::external_body]
pub fn hot_get(c: &mut LruCache<String, (String, u128)>, key: &String) -> (r: Option<(String, u128)>)
    requires
        keys_unique(lru_slots(*old(c))),
    ensures
        lru_slots(*final(c)) == lru_touched(lru_slots(*old(c)), key@),
        lru_capacity(*final(c)) == lru_capacity(*old(c)),
        r is Some <==> has_key(lru_slots(*old(c)), key@),
        r matches Some(p) ==> {
            let s = lru_slots(*old(c))[key_index(lru_slots(*old(c)), key@)];
            p.0@ == s.1 && p.1 == s.2
        },
{
    c.get(key).cloned()
}

/// Calls `LruCache::pop`. The contract claims that the key's slot, if any,
/// is gone and the others keep their order.
#[verifier::external_body]
pub fn hot_pop(c: &mut LruCache<String, (String, u128)>, key: &String)
    requires
        keys_unique(lru_slots(*old(c))),
    ensures
        lru_slots(*final(c)) == without_key(lru_slots(*old(c)), key@),
        lru_capacity(*final(c)) == lru_capacity(*old(c)),
{
    c.pop(key);
}

/// Calls `LruCache::len`: the number of slots.
#[verifier::external_body]
pub fn hot_len(c: &LruCache<String, (String, u128)>) -> (r: usize)
    ensures
        r == lru_slots(*c).len(),
{
    c.len()
}

/// Calls `LruCache::clear`: no slot is left.
#[verifier::external_body]
pub fn hot_clear(c: &mut LruCache<String, (String, u128)>)
    ensures
        lru_slots(*final(c)) == Seq::<Slot>::empty(),
        lru_capacity(*final(c)) == lru_capacity(*old(c)),
{
    c.clear();
}

/// The view of a slot handed out.
pub open spec fn slot_view(t: (String, String, u128)) -> Slot {
    (t.0@, t.1@, t.2)
}

/// Calls `LruCache::iter` and clones each entry. The contract claims that
/// the slots come in the order the crate's iterator gives them, from the
/// most recently used to the least.
#[verifier::external_body]
pub fn hot_slots(c: &LruCache<String, (String, u128)>) -> (r: Vec<(String, String, u128)>)
    ensures
        r@.map_values(|t: (String, String, u128)| slot_view(t)) == lru_slots(*c).reverse(),
{
    c.iter().map(|(k, v)| (k.clone(), v.0.clone(), v.1)).collect()
}

} // verus!
