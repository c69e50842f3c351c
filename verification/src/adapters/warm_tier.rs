//! The warm tier: a `dashmap::DashMap` from key text to value text and
//! expiry, modelled as a finite map.

use vstd::prelude::*;
use dashmap::DashMap;

verus! {

#[verifier::external_type_specification]
#[verifier::external_body]
#[verifier::reject_recursive_types(K)]
#[verifier::reject_recursive_types(V)]
#[verifier::reject_recursive_types(S)]
pub struct ExDashMap<K, V, S>(DashMap<K, V, S>);

/// What a `DashMap` holds: key text to value text and expiry.
pub uninterp spec fn map_slots(m: DashMap<String, (String, u128)>) -> Map<Seq<char>, (Seq<char>, u128)>;

/// The empty map of slots.
pub open spec fn no_slots() -> Map<Seq<char>, (Seq<char>, u128)> {
    Map::empty()
}

/// Calls `DashMap::new`: the map starts empty.
#[verifier::external_body]
pub fn warm_new() -> (r: DashMap<String, (String, u128)>)
    ensures
        map_slots(r) == no_slots(),
{
    DashMap::new()
}

/// Calls `DashMap::insert`: the key now maps to the value and expiry, and
/// nothing else changes.
#[verifier::external_body]
pub fn warm_insert(m: &mut DashMap<String, (String, u128)>, key: String, value: String, expiry: u128)
    ensures
        map_slots(*final(m)) == map_slots(*old(m)).insert(key@, (value@, expiry)),
{
    m.insert(key, (value, expiry));
}

/// Calls `DashMap::get` and clones what it finds: the key's value and
/// expiry, if the key is present. The guard is dropped before returning.
#[verifier::external_body]
pub fn warm_get(m: &DashMap<String, (String, u128)>, key: &String) -> (r: Option<(String, u128)>)
    ensures
        r is Some <==> map_slots(*m).contains_key(key@),
        r matches Some(p) ==> (p.0@, p.1) == map_slots(*m)[key@],
{
    match m.get(key) {
        Some(entry) => Some(entry.value().clone()),
        None => None,
    }
}

/// Calls `DashMap::remove`: the key is gone and nothing else changes.
#[verifier::external_body]
pub fn warm_remove(m: &mut DashMap<String, (String, u128)>, key: &String)
    ensures
        map_slots(*final(m)) == map_slots(*old(m)).remove(key@),
{
    m.remove(key);
}

/// Calls `DashMap::len`: the number of keys.
#[verifier::external_body]
pub fn warm_len(m: &DashMap<String, (String, u128)>) -> (r: usize)
    ensures
        r == map_slots(*m).len(),
{
    m.len()
}

/// Calls `DashMap::clear`: no key is left.
#[verifier::external_body]
pub fn warm_clear(m: &mut DashMap<String, (String, u128)>)
    ensures
        map_slots(*final(m)) == no_slots(),
{
    m.clear();
}

/// Calls `DashMap::iter` and clones each entry. The order depends on the
/// map's randomly seeded hasher, so the contract claims only that each key
/// comes once, with its value and expiry, and that every key comes.
#[verifier::external_body]
pub fn warm_slots(m: &DashMap<String, (String, u128)>) -> (r: Vec<(String, String, u128)>)
    ensures
        r@.len() == map_slots(*m).len(),
        forall|i: int, j: int| 0 <= i < r@.len() && 0 <= j < r@.len() && i != j ==> #[trigger] r@[i].0@ != #[trigger] r@[j].0@,
        forall|i: int| 0 <= i < r@.len() ==> #[trigger] map_slots(*m).contains_key(r@[i].0@)
            && map_slots(*m)[r@[i].0@] == (r@[i].1@, r@[i].2),
        forall|k: Seq<char>| #[trigger] map_slots(*m).contains_key(k) ==> exists|i: int| 0 <= i < r@.len() && #[trigger] r@[i].0@ == k,
{
    m.iter().map(|entry| (entry.key().clone(), entry.value().0.clone(), entry.value().1)).collect()
}

} // verus!
