//! The concurrent maps that hold the detector's per-source state, and the
//! contracts under which the detector uses them.
//!
//! Every function here is a thin call into `dashmap`; its contract is taken
//! on trust. A function that changes a map takes it by `&mut`, so that the
//! caller is the only one touching the map during the call and the contract
//! can relate the contents before and after.

use vstd::prelude::*;
use dashmap::DashMap;
use crate::ip::IpKey;

verus! {

/// One observation of a destination port: the port and the monotonic time,
/// in nanoseconds, at which it was seen.
#[derive(Clone, Copy, Debug, PartialEq, Eq, Structural)]
pub struct PortHit {
    pub port: u16,
    pub seen_at: u128,
}

/// `dashmap::DashMap`, declared so that it can stand in fields and signatures.
/// Nothing is known of what a value holds but through the functions below.
#[verifier::external_type_specification]
#[verifier::external_body]
#[verifier::reject_recursive_types(K)]
#[verifier::reject_recursive_types(V)]
#[verifier::reject_recursive_types(S)]
pub struct ExDashMap<K, V, S>(DashMap<K, V, S>);

/// What a map of hit lists holds: for each key, its list in insertion order.
pub uninterp spec fn hit_lists(m: DashMap<IpKey, Vec<PortHit>>) -> Map<IpKey, Seq<PortHit>>;

/// What a map of instants holds: for each key, its time in nanoseconds.
pub uninterp spec fn instants(m: DashMap<IpKey, u128>) -> Map<IpKey, u128>;

/// `DashMap::new`: a map that holds nothing.
#[verifier::external_body]
pub(crate) fn hits_new() -> (m: DashMap<IpKey, Vec<PortHit>>)
    ensures
        forall|k: IpKey| !hit_lists(m).contains_key(k),
{
    DashMap::new()
}

/// `DashMap::contains_key`: whether the map holds an entry under `key`.
#[verifier::external_body]
pub(crate) fn hits_contains(m: &DashMap<IpKey, Vec<PortHit>>, key: &IpKey) -> (b: bool)
    ensures
        b == hit_lists(*m).contains_key(*key),
{
    m.contains_key(key)
}

/// `DashMap::get`, with the list under the guard copied out: the list stored
/// under `key`, or `None` where the map has no entry for it.
#[verifier::external_body]
pub(crate) fn hits_get(m: &DashMap<IpKey, Vec<PortHit>>, key: &IpKey) -> (r: Option<Vec<PortHit>>)
    ensures
        r is Some <==> hit_lists(*m).contains_key(*key),
        r is Some ==> r->0@ == hit_lists(*m)[*key],
{
    m.get(key).map(|entry| entry.value().clone())
}

/// `DashMap::insert`: afterwards `key` maps to `list`, and every other key is
/// as before.
#[verifier::external_body]
pub(crate) fn hits_insert(m: &mut DashMap<IpKey, Vec<PortHit>>, key: IpKey, list: Vec<PortHit>)
    ensures
        hit_lists(*final(m)) == hit_lists(*old(m)).insert(key, list@),
{
    m.insert(key, list);
}

/// `DashMap::remove`: afterwards the map has no entry under `key`, every other
/// key is as before, and the list that was stored under `key` is returned.
#[verifier::external_body]
pub(crate) fn hits_remove(m: &mut DashMap<IpKey, Vec<PortHit>>, key: &IpKey) -> (r: Option<
    Vec<PortHit>,
>)
    ensures
        hit_lists(*final(m)) == hit_lists(*old(m)).remove(*key),
        r is Some <==> hit_lists(*old(m)).contains_key(*key),
        r is Some ==> r->0@ == hit_lists(*old(m))[*key],
{
    m.remove(key).map(|pair| pair.1)
}

/// `DashMap::iter`, keeping the key of each entry: every key of the map,
/// each once, in no stated order.
#[verifier::external_body]
pub(crate) fn hits_keys(m: &DashMap<IpKey, Vec<PortHit>>) -> (keys: Vec<IpKey>)
    ensures
        keys@.no_duplicates(),
        forall|k: IpKey| keys@.contains(k) <==> hit_lists(*m).contains_key(k),
{
    m.iter().map(|entry| *entry.key()).collect()
}

/// `DashMap::new`: a map that holds nothing.
#[verifier::external_body]
pub(crate) fn stamps_new() -> (m: DashMap<IpKey, u128>)
    ensures
        forall|k: IpKey| !instants(m).contains_key(k),
{
    DashMap::new()
}

/// `DashMap::contains_key`: whether the map holds an entry under `key`.
#[verifier::external_body]
pub(crate) fn stamps_contains(m: &DashMap<IpKey, u128>, key: &IpKey) -> (b: bool)
    ensures
        b == instants(*m).contains_key(*key),
{
    m.contains_key(key)
}

/// A map has finitely many entries, `n` of them.
pub open spec fn has_len(contents: Map<IpKey, u128>, n: usize) -> bool {
    contents.dom().finite() && contents.len() == n
}

/// `DashMap::len`: the number of entries, which is finite.
#[verifier::external_body]
pub(crate) fn stamps_len(m: &DashMap<IpKey, u128>) -> (n: usize)
    ensures
        has_len(instants(*m), n),
{
    m.len()
}

/// `DashMap::get`, with the value under the guard copied out.
#[verifier::external_body]
pub(crate) fn stamps_get(m: &DashMap<IpKey, u128>, key: &IpKey) -> (r: Option<u128>)
    ensures
        r is Some <==> instants(*m).contains_key(*key),
        r is Some ==> r->0 == instants(*m)[*key],
{
    m.get(key).map(|entry| *entry.value())
}

/// `DashMap::insert`: afterwards `key` maps to `at`, and every other key is
/// as before.
#[verifier::external_body]
pub(crate) fn stamps_insert(m: &mut DashMap<IpKey, u128>, key: IpKey, at: u128)
    ensures
        instants(*final(m)) == instants(*old(m)).insert(key, at),
{
    m.insert(key, at);
}

/// `DashMap::remove`: afterwards the map has no entry under `key`, and every
/// other key is as before.
#[verifier::external_body]
pub(crate) fn stamps_remove(m: &mut DashMap<IpKey, u128>, key: &IpKey)
    ensures
        instants(*final(m)) == instants(*old(m)).remove(*key),
{
    m.remove(key);
}

/// `DashMap::iter`, copying each entry out: every entry of the map, each key
/// once, in no stated order.
#[verifier::external_body]
pub(crate) fn stamps_entries(m: &DashMap<IpKey, u128>) -> (entries: Vec<(IpKey, u128)>)
    ensures
        forall|i: int, j: int|
            0 <= i < j < entries@.len() ==> (#[trigger] entries@[i]).0 != (#[trigger] entries@[j]).0,
        forall|i: int|
            0 <= i < entries@.len() ==> instants(*m).contains_key((#[trigger] entries@[i]).0)
                && instants(*m)[entries@[i].0] == entries@[i].1,
        forall|k: IpKey|
            instants(*m).contains_key(k) ==> exists|i: int|
                0 <= i < entries@.len() && (#[trigger] entries@[i]).0 == k,
{
    m.iter().map(|entry| (*entry.key(), *entry.value())).collect()
}

/// Whether an instant is at most `max_age` old, seen from `now`.
pub open spec fn recent(at: u128, now: u128, max_age: u128) -> bool {
    now <= at || now - at <= max_age
}

/// Whether an instant is at most `max_age` old, seen from `now`.
pub fn is_recent(at: u128, now: u128, max_age: u128) -> (b: bool)
    ensures
        b == recent(at, now, max_age),
{
    now <= at || now - at <= max_age
}

/// `DashMap::retain` with the age test as predicate: afterwards the map holds
/// exactly the entries that were at most `max_age` old, unchanged.
#[verifier::external_body]
pub(crate) fn stamps_retain_recent(m: &mut DashMap<IpKey, u128>, now: u128, max_age: u128)
    ensures
        forall|k: IpKey|
            instants(*final(m)).contains_key(k) <==> instants(*old(m)).contains_key(k) && recent(
                instants(*old(m))[k],
                now,
                max_age,
            ),
        forall|k: IpKey|
            instants(*final(m)).contains_key(k) ==> instants(*final(m))[k] == instants(*old(m))[k],
{
    m.retain(|_, at| is_recent(*at, now, max_age));
}

} // verus!
