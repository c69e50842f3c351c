//! Value objects: immutable values defined by their attributes alone.

use vstd::prelude::*;
use std::time::Duration;
use vstd::std_specs::cmp::PartialEqSpecImpl;
use vstd::std_specs::convert::FromSpecImpl;
use crate::domain::text::{decimal, decimal_string};
use crate::domain::time::{
    duration_as_nanos, duration_from_nanos, duration_nanos, duration_new, MAX_DURATION_NANOS,
    NANOS_PER_MILLI, NANOS_PER_SEC,
};

verus! {

/// A cache key: a string that names one cached value.
#[derive(Debug, Clone, Hash)]
pub struct CacheKey(String);

impl View for CacheKey {
    type V = Seq<char>;

    closed spec fn view(&self) -> Seq<char> {
        self.0@
    }
}

impl CacheKey {
    /// The key whose text is `key`.
    pub fn new(key: &str) -> (r: CacheKey)
        ensures
            r@ == key@,
    {
        CacheKey(String::from_str(key))
    }

    /// The key as text.
    pub fn as_str(&self) -> (r: &str)
        ensures
            r@ == self@,
    {
        self.0.as_str()
    }

    /// The key's length in bytes of UTF-8.
    pub fn len(&self) -> (r: usize)
        ensures
            r == vstd::utf8::encode_utf8(self@).len() as usize,
    {
        self.0.as_str().len()
    }

    /// Whether the key is the empty string.
    pub fn is_empty(&self) -> (r: bool)
        ensures
            r == (self@.len() == 0),
    {
        self.0.as_str().is_empty()
    }

    /// The key's text, as a string of its own.
    pub fn to_owned_string(&self) -> (r: String)
        ensures
            r@ == self@,
    {
        self.0.clone()
    }
}

impl AsRef<str> for CacheKey {
    fn as_ref(&self) -> (r: &str)
        ensures
            r@ == self@,
    {
        self.0.as_str()
    }
}

impl From<String> for CacheKey {
    fn from(s: String) -> (r: CacheKey)
        ensures
            r@ == s@,
    {
        CacheKey(s)
    }
}

impl FromSpecImpl<String> for CacheKey {
    open spec fn obeys_from_spec() -> bool {
        true
    }

    closed spec fn from_spec(v: String) -> CacheKey {
        CacheKey(v)
    }
}

impl<'a> From<&'a str> for CacheKey {
    fn from(s: &'a str) -> (r: CacheKey)
        ensures
            r@ == s@,
    {
        CacheKey::new(s)
    }
}

impl<'a> FromSpecImpl<&'a str> for CacheKey {
    open spec fn obeys_from_spec() -> bool {
        false
    }

    open spec fn from_spec(v: &'a str) -> CacheKey {
        arbitrary()
    }
}

impl PartialEq for CacheKey {
    fn eq(&self, other: &Self) -> (r: bool) {
        self.0 == other.0
    }
}

impl PartialEqSpecImpl for CacheKey {
    open spec fn obeys_eq_spec() -> bool {
        true
    }

    open spec fn eq_spec(&self, other: &Self) -> bool {
        self@ == other@
    }
}

impl Eq for CacheKey {}

/// A cached value: a string.
#[derive(Debug, Clone)]
pub struct CacheValue(String);

impl View for CacheValue {
    type V = Seq<char>;

    closed spec fn view(&self) -> Seq<char> {
        self.0@
    }
}

impl CacheValue {
    /// The value whose text is `value`.
    pub fn new(value: &str) -> (r: CacheValue)
        ensures
            r@ == value@,
    {
        CacheValue(String::from_str(value))
    }

    /// The value as text.
    pub fn as_str(&self) -> (r: &str)
        ensures
            r@ == self@,
    {
        self.0.as_str()
    }

    /// The value's length in bytes of UTF-8.
    pub fn len(&self) -> (r: usize)
        ensures
            r == vstd::utf8::encode_utf8(self@).len() as usize,
    {
        self.0.as_str().len()
    }

    /// Whether the value is the empty string.
    pub fn is_empty(&self) -> (r: bool)
        ensures
            r == (self@.len() == 0),
    {
        self.0.as_str().is_empty()
    }

    /// The value's text, as a string of its own.
    pub fn to_owned_string(&self) -> (r: String)
        ensures
            r@ == self@,
    {
        self.0.clone()
    }

    /// The value that holds `s`.
    pub fn from_string(s: String) -> (r: CacheValue)
        ensures
            r@ == s@,
    {
        CacheValue(s)
    }
}

impl AsRef<str> for CacheValue {
    fn as_ref(&self) -> (r: &str)
        ensures
            r@ == self@,
    {
        self.0.as_str()
    }
}

impl From<String> for CacheValue {
    fn from(s: String) -> (r: CacheValue)
        ensures
            r@ == s@,
    {
        CacheValue(s)
    }
}

impl FromSpecImpl<String> for CacheValue {
    open spec fn obeys_from_spec() -> bool {
        true
    }

    closed spec fn from_spec(v: String) -> CacheValue {
        CacheValue(v)
    }
}

impl<'a> From<&'a str> for CacheValue {
    fn from(s: &'a str) -> (r: CacheValue)
        ensures
            r@ == s@,
    {
        CacheValue::new(s)
    }
}

impl<'a> FromSpecImpl<&'a str> for CacheValue {
    open spec fn obeys_from_spec() -> bool {
        false
    }

    open spec fn from_spec(v: &'a str) -> CacheValue {
        arbitrary()
    }
}

impl PartialEq for CacheValue {
    fn eq(&self, other: &Self) -> (r: bool) {
        self.0 == other.0
    }
}

impl PartialEqSpecImpl for CacheValue {
    open spec fn obeys_eq_spec() -> bool {
        true
    }

    open spec fn eq_spec(&self, other: &Self) -> bool {
        self@ == other@
    }
}

impl Eq for CacheValue {}

/// The text that a TTL of `nanos` nanoseconds is shown as: `0s`, `infinite`,
/// whole seconds such as `120s`, or, under a second, whole milliseconds such
/// as `250ms`.
pub open spec fn ttl_text(nanos: nat) -> Seq<char> {
    if nanos == 0 {
        seq!['0', 's']
    } else if nanos == MAX_DURATION_NANOS {
        seq!['i', 'n', 'f', 'i', 'n', 'i', 't', 'e']
    } else if nanos / (NANOS_PER_SEC as nat) > 0 {
        decimal(nanos / (NANOS_PER_SEC as nat)) + seq!['s']
    } else {
        decimal(nanos / (NANOS_PER_MILLI as nat)) + seq!['m', 's']
    }
}

/// A time-to-live: how long an entry stays fresh, to the nanosecond, up to
/// the longest `Duration`.
#[derive(Debug, Clone, Copy, PartialEq, Eq, Structural)]
pub struct Ttl {
    nanos: u128,
}

impl View for Ttl {
    type V = nat;

    closed spec fn view(&self) -> nat {
        self.nanos as nat
    }
}

impl Ttl {
    #[verifier::type_invariant]
    closed spec fn bounded(self) -> bool {
        self.nanos <= MAX_DURATION_NANOS
    }

    /// Two TTLs of the same length are the same TTL.
    pub proof fn lemma_view_determines(self)
        ensures
            forall|other: Ttl| other@ == self@ ==> other == self,
    {
    }

    /// A TTL of `seconds` seconds.
    pub fn from_secs(seconds: u64) -> (r: Ttl)
        ensures
            r@ == seconds * NANOS_PER_SEC,
    {
        Ttl { nanos: seconds as u128 * NANOS_PER_SEC }
    }

    /// A TTL of `millis` milliseconds.
    pub fn from_millis(millis: u64) -> (r: Ttl)
        ensures
            r@ == millis * NANOS_PER_MILLI,
    {
        Ttl { nanos: millis as u128 * NANOS_PER_MILLI }
    }

    /// A TTL as long as `duration`.
    pub fn from_duration(duration: Duration) -> (r: Ttl)
        ensures
            r@ == duration_nanos(duration),
            forall|e: Duration| #[trigger] duration_nanos(e) == r@ ==> e == duration,
    {
        Ttl { nanos: duration_as_nanos(&duration) }
    }

    /// A TTL of `nanos` nanoseconds, where that is no longer than the longest
    /// `Duration`.
    pub fn from_nanos(nanos: u128) -> (r: Option<Ttl>)
        ensures
            r is Some <==> nanos <= MAX_DURATION_NANOS,
            r matches Some(t) ==> t@ == nanos,
    {
        if nanos <= MAX_DURATION_NANOS {
            Some(Ttl { nanos })
        } else {
            None
        }
    }

    /// The zero TTL: an entry expires at once.
    pub fn zero() -> (r: Ttl)
        ensures
            r@ == 0,
    {
        Ttl { nanos: 0 }
    }

    /// The TTL that never runs out: the longest `Duration`.
    pub fn infinite() -> (r: Ttl)
        ensures
            r@ == MAX_DURATION_NANOS,
    {
        Ttl { nanos: MAX_DURATION_NANOS }
    }

    /// The TTL as a `Duration`.
    pub fn as_duration(&self) -> (r: Duration)
        ensures
            duration_nanos(r) == self@,
            forall|e: Duration| #[trigger] duration_nanos(e) == self@ ==> e == r,
    {
        proof { use_type_invariant(self); }
        duration_from_nanos(self.nanos)
    }

    /// The TTL in nanoseconds.
    pub fn as_nanos(&self) -> (r: u128)
        ensures
            r == self@,
            r <= MAX_DURATION_NANOS,
    {
        proof { use_type_invariant(self); }
        self.nanos
    }

    /// The whole seconds of the TTL.
    pub fn as_secs(&self) -> (r: u64)
        ensures
            r == self@ / (NANOS_PER_SEC as nat),
    {
        proof { use_type_invariant(self); }
        (self.nanos / NANOS_PER_SEC) as u64
    }

    /// Whether the TTL is zero.
    pub fn is_zero(&self) -> (r: bool)
        ensures
            r == (self@ == 0),
    {
        self.nanos == 0
    }

    /// Whether the TTL is the infinite one.
    pub fn is_infinite(&self) -> (r: bool)
        ensures
            r == (self@ == MAX_DURATION_NANOS),
    {
        self.nanos == MAX_DURATION_NANOS
    }

    /// The TTL as text: `0s`, `infinite`, whole seconds, or whole
    /// milliseconds under a second.
    pub fn to_string(&self) -> (r: String)
        ensures
            r@ == ttl_text(self@),
    {
        proof { use_type_invariant(self); }
        if self.nanos == 0 {
            proof { reveal_strlit("0s"); }
            String::from_str("0s")
        } else if self.nanos == MAX_DURATION_NANOS {
            proof { reveal_strlit("infinite"); }
            String::from_str("infinite")
        } else if self.nanos / NANOS_PER_SEC > 0 {
            let mut s = decimal_string(self.nanos / NANOS_PER_SEC);
            proof { reveal_strlit("s"); }
            s.append("s");
            s
        } else {
            let mut s = decimal_string(self.nanos / NANOS_PER_MILLI);
            proof { reveal_strlit("ms"); }
            s.append("ms");
            s
        }
    }
}

/// A TTL made from whole seconds gives those seconds back.
pub proof fn lemma_secs_round_trip(seconds: u64, ttl: Ttl)
    requires
        ttl@ == seconds * NANOS_PER_SEC,
    ensures
        ttl@ / (NANOS_PER_SEC as nat) == seconds,
{
    assert((seconds * NANOS_PER_SEC) / (NANOS_PER_SEC as int) == seconds) by (nonlinear_arith)
        requires NANOS_PER_SEC > 0;
}

/// A `Duration` turned into a TTL and back is the same `Duration`.
pub proof fn lemma_duration_ttl_round_trip(duration: Duration, ttl: Ttl, back: Duration)
    requires
        ttl@ == duration_nanos(duration),
        forall|e: Duration| #[trigger] duration_nanos(e) == ttl@ ==> e == back,
    ensures
        back == duration,
{
    assert(duration_nanos(duration) == ttl@);
}

/// TTLs made from two durations are the same exactly when the durations are.
pub proof fn lemma_from_duration_injective(d: Duration, e: Duration, td: Ttl, te: Ttl)
    requires
        td@ == duration_nanos(d),
        te@ == duration_nanos(e),
        forall|x: Duration| #[trigger] duration_nanos(x) == td@ ==> x == d,
    ensures
        (td == te) <==> (d == e),
{
    td.lemma_view_determines();
    if td == te {
        assert(duration_nanos(e) == td@);
    }
}

/// A TTL turned into a `Duration` and back is the same TTL.
pub proof fn lemma_duration_round_trip(ttl: Ttl, duration: Duration, back: Ttl)
    requires
        duration_nanos(duration) == ttl@,
        back@ == duration_nanos(duration),
    ensures
        back == ttl,
{
    ttl.lemma_view_determines();
    back.lemma_view_determines();
}

/// The default TTL: one hour.
pub open spec fn default_ttl_nanos() -> nat {
    (3600 * NANOS_PER_SEC) as nat
}

impl Default for Ttl {
    fn default() -> (r: Ttl)
        ensures
            r@ == default_ttl_nanos(),
    {
        Ttl::from_secs(3600)
    }
}

/// A tier of the cache.
#[derive(Debug, Clone, Copy, PartialEq, Eq, Hash, Structural)]
pub enum CacheTier {
    /// L1: the least-recently-used tier for hot data.
    L1,
    /// L2: the map for warm data.
    L2,
    /// L3: persistent storage.
    L3,
}

/// The name a tier is shown by.
pub open spec fn tier_text(tier: CacheTier) -> Seq<char> {
    match tier {
        CacheTier::L1 => seq!['L', '1'],
        CacheTier::L2 => seq!['L', '2'],
        CacheTier::L3 => seq!['L', '3'],
    }
}

/// The position of a tier's counter in `CacheStats::tier_hits`.
pub open spec fn tier_index(tier: CacheTier) -> int {
    match tier {
        CacheTier::L1 => 0,
        CacheTier::L2 => 1,
        CacheTier::L3 => 2,
    }
}

impl CacheTier {
    /// The tier's name: `L1`, `L2` or `L3`.
    pub fn as_str(&self) -> (r: &'static str)
        ensures
            r@ == tier_text(*self),
    {
        match self {
            CacheTier::L1 => {
                proof { reveal_strlit("L1"); }
                "L1"
            },
            CacheTier::L2 => {
                proof { reveal_strlit("L2"); }
                "L2"
            },
            CacheTier::L3 => {
                proof { reveal_strlit("L3"); }
                "L3"
            },
        }
    }
}

impl Default for CacheTier {
    fn default() -> (r: CacheTier)
        ensures
            r == CacheTier::L1,
    {
        CacheTier::L1
    }
}

/// The counters of a `CacheStats`, as numbers.
pub struct StatsView {
    pub hits: nat,
    pub misses: nat,
    pub evictions: nat,
    pub size: nat,
    pub tier_hits: Seq<nat>,
}

impl StatsView {
    /// All counters at zero, with the given size.
    pub open spec fn zeroed(size: nat) -> StatsView {
        StatsView { hits: 0, misses: 0, evictions: 0, size, tier_hits: seq![0nat, 0nat, 0nat] }
    }

    /// Whether one more hit in `tier` fits the counters.
    pub open spec fn can_hit(self, tier: CacheTier) -> bool {
        &&& self.hits < u64::MAX
        &&& self.tier_hits.len() == 3
        &&& self.tier_hits[tier_index(tier)] < u64::MAX
    }

    /// Whether one more miss fits the counters.
    pub open spec fn can_miss(self) -> bool {
        self.misses < u64::MAX
    }

    /// Whether one more eviction fits the counters.
    pub open spec fn can_evict(self) -> bool {
        self.evictions < u64::MAX
    }

    /// The counters after one more hit in `tier`.
    pub open spec fn with_hit(self, tier: CacheTier) -> StatsView {
        StatsView {
            hits: self.hits + 1,
            tier_hits: self.tier_hits.update(tier_index(tier), self.tier_hits[tier_index(tier)] + 1),
            ..self
        }
    }

    /// The counters after one more miss.
    pub open spec fn with_miss(self) -> StatsView {
        StatsView { misses: self.misses + 1, ..self }
    }

    /// The counters after one more eviction.
    pub open spec fn with_eviction(self) -> StatsView {
        StatsView { evictions: self.evictions + 1, ..self }
    }

    /// The same counters with another size.
    pub open spec fn with_size(self, size: nat) -> StatsView {
        StatsView { size, ..self }
    }
}

/// Counters of a cache's hits, misses and evictions, and its size.
#[derive(Debug, Clone)]
pub struct CacheStats {
    /// Total hits.
    pub hits: u64,
    /// Total misses.
    pub misses: u64,
    /// Evictions.
    pub evictions: u64,
    /// Current size.
    pub size: usize,
    /// Hits per tier: L1, L2, L3.
    pub tier_hits: [u64; 3],
}

impl View for CacheStats {
    type V = StatsView;

    open spec fn view(&self) -> StatsView {
        StatsView {
            hits: self.hits as nat,
            misses: self.misses as nat,
            evictions: self.evictions as nat,
            size: self.size as nat,
            tier_hits: self.tier_hits@.map_values(|h: u64| h as nat),
        }
    }
}

impl CacheStats {
    /// All counters at zero, with size zero.
    pub fn new() -> (r: CacheStats)
        ensures
            r@ == StatsView::zeroed(0),
    {
        let r = CacheStats { hits: 0, misses: 0, evictions: 0, size: 0, tier_hits: [0, 0, 0] };
        assert(r@.tier_hits =~= seq![0nat, 0nat, 0nat]);
        r
    }

    /// The same counters, with the size set to `size`.
    pub fn copy_with_size(&self, size: usize) -> (r: CacheStats)
        ensures
            r@ == self@.with_size(size as nat),
    {
        let t = self.tier_hits;
        let r = CacheStats {
            hits: self.hits,
            misses: self.misses,
            evictions: self.evictions,
            size,
            tier_hits: [t[0], t[1], t[2]],
        };
        assert(r@.tier_hits =~= self@.tier_hits);
        r
    }

    /// Counts one hit in `tier`.
    pub fn record_hit(&mut self, tier: CacheTier)
        requires
            old(self)@.can_hit(tier),
        ensures
            final(self)@ == old(self)@.with_hit(tier),
    {
        self.hits = self.hits + 1;
        match tier {
            CacheTier::L1 => {
                self.tier_hits[0] = self.tier_hits[0] + 1;
            },
            CacheTier::L2 => {
                self.tier_hits[1] = self.tier_hits[1] + 1;
            },
            CacheTier::L3 => {
                self.tier_hits[2] = self.tier_hits[2] + 1;
            },
        }
        assert(self@.tier_hits =~= old(self)@.with_hit(tier).tier_hits);
    }

    /// Counts one miss.
    pub fn record_miss(&mut self)
        requires
            old(self)@.can_miss(),
        ensures
            final(self)@ == old(self)@.with_miss(),
    {
        self.misses = self.misses + 1;
    }

    /// Counts one eviction.
    pub fn record_eviction(&mut self)
        requires
            old(self)@.can_evict(),
        ensures
            final(self)@ == old(self)@.with_eviction(),
    {
        self.evictions = self.evictions + 1;
    }
}

impl Default for CacheStats {
    fn default() -> (r: CacheStats)
        ensures
            r@ == StatsView::zeroed(0),
    {
        CacheStats::new()
    }
}

/// The configuration of a cache.
#[derive(Debug, Clone)]
pub struct CacheConfig {
    /// Maximum L1 size.
    pub l1_max_size: usize,
    /// Maximum L2 size.
    pub l2_max_size: usize,
    /// Default TTL.
    pub default_ttl: Ttl,
    /// Cleanup interval.
    pub cleanup_interval: Duration,
}

/// The default cleanup interval: one minute.
pub open spec fn default_cleanup_nanos() -> nat {
    (60 * NANOS_PER_SEC) as nat
}

impl CacheConfig {
    /// A configuration with the given sizes and TTL, cleaned up every minute.
    pub fn new(l1_max_size: usize, l2_max_size: usize, default_ttl: Ttl) -> (r: CacheConfig)
        ensures
            r.l1_max_size == l1_max_size,
            r.l2_max_size == l2_max_size,
            r.default_ttl == default_ttl,
            duration_nanos(r.cleanup_interval) == default_cleanup_nanos(),
    {
        CacheConfig {
            l1_max_size,
            l2_max_size,
            default_ttl,
            cleanup_interval: duration_new(60, 0),
        }
    }

    /// The same configuration, cleaned up every `interval`.
    pub fn with_cleanup_interval(self, interval: Duration) -> (r: CacheConfig)
        ensures
            r.l1_max_size == self.l1_max_size,
            r.l2_max_size == self.l2_max_size,
            r.default_ttl == self.default_ttl,
            r.cleanup_interval == interval,
    {
        let mut c = self;
        c.cleanup_interval = interval;
        c
    }
}

impl Default for CacheConfig {
    fn default() -> (r: CacheConfig)
        ensures
            r.l1_max_size == 1000,
            r.l2_max_size == 10000,
            r.default_ttl@ == default_ttl_nanos(),
            duration_nanos(r.cleanup_interval) == default_cleanup_nanos(),
    {
        CacheConfig {
            l1_max_size: 1000,
            l2_max_size: 10000,
            default_ttl: Ttl::default(),
            cleanup_interval: duration_new(60, 0),
        }
    }
}

} // verus!
