//! Memory that forgets: what was put in may be gone at any time, but what is still there is what
//! was put in last.

use crate::types::FileStatus;
use moka::sync::Cache;
use vstd::prelude::*;

verus! {

/// A cache of the `moka` crate. It drops what has been in it for too long, and what it has no room
/// for.
#[verifier::external_type_specification]
#[verifier::external_body]
#[verifier::reject_recursive_types(K)]
#[verifier::reject_recursive_types(V)]
#[verifier::reject_recursive_types(S)]
pub struct ExCache<K, V, S>(Cache<K, V, S>);

/// The longest time that something can be kept, in seconds: a thousand years.
pub const MAX_TTL_SECS: u64 = 31_536_000_000;

// ---------------------------------------------------------------------------
// The paths of files
// ---------------------------------------------------------------------------

/// What was put into a cache of the paths of files and was neither replaced nor taken out since.
/// What the cache still holds is among it.
pub uninterp spec fn kept_paths(c: Cache<u64, String>) -> Map<u64, Seq<char>>;

/// An empty cache that holds at most `capacity` entries, none for longer than `ttl_secs`:
/// `Cache::builder`, with `max_capacity`, `time_to_live` and `build`, which panics where the time is
/// longer than a thousand years.
#[verifier::external_body]
pub(crate) fn new_paths(capacity: u64, ttl_secs: u64) -> (r: Cache<u64, String>)
    requires
        ttl_secs <= MAX_TTL_SECS,
    ensures
        (kept_paths(r) == Map::<u64, Seq<char>>::empty()),
{
    Cache::builder().max_capacity(capacity).time_to_live(
        std::time::Duration::from_secs(ttl_secs),
    ).build()
}

/// `Cache::get`: the value of a key, if the cache still holds one.
#[verifier::external_body]
pub(crate) fn get_path(c: &Cache<u64, String>, k: &u64) -> (r: Option<String>)
    ensures
        r is Some ==> kept_paths(*c).contains_key(*k) && r->Some_0@ == kept_paths(*c)[*k],
{
    c.get(k)
}

/// `Cache::insert`: gives a key a value, in place of the one that it had.
#[verifier::external_body]
pub(crate) fn put_path(c: &mut Cache<u64, String>, k: u64, v: String)
    ensures
        kept_paths(*final(c)) == kept_paths(*old(c)).insert(k, v@),
{
    c.insert(k, v)
}

/// `Cache::invalidate`: takes a key out.
#[verifier::external_body]
pub(crate) fn drop_path(c: &mut Cache<u64, String>, k: &u64)
    ensures
        kept_paths(*final(c)) == kept_paths(*old(c)).remove(*k),
{
    c.invalidate(k)
}

// ---------------------------------------------------------------------------
// The numbers of files
// ---------------------------------------------------------------------------

/// What was put into a cache of the numbers of files and was neither replaced nor taken out since.
/// What the cache still holds is among it.
pub uninterp spec fn kept_ids(c: Cache<String, u64>) -> Map<Seq<char>, u64>;

/// An empty cache that holds at most `capacity` entries, none for longer than `ttl_secs`:
/// `Cache::builder`, with `max_capacity`, `time_to_live` and `build`, which panics where the time is
/// longer than a thousand years.
#[verifier::external_body]
pub(crate) fn new_ids(capacity: u64, ttl_secs: u64) -> (r: Cache<String, u64>)
    requires
        ttl_secs <= MAX_TTL_SECS,
    ensures
        (kept_ids(r) == Map::<Seq<char>, u64>::empty()),
{
    Cache::builder().max_capacity(capacity).time_to_live(
        std::time::Duration::from_secs(ttl_secs),
    ).build()
}

/// `Cache::get`: the value of a key, if the cache still holds one.
#[verifier::external_body]
pub(crate) fn get_id(c: &Cache<String, u64>, k: &str) -> (r: Option<u64>)
    ensures
        r is Some ==> kept_ids(*c).contains_key(k@) && r->Some_0 == kept_ids(*c)[k@],
{
    c.get(k)
}

/// `Cache::insert`: gives a key a value, in place of the one that it had.
#[verifier::external_body]
pub(crate) fn put_id(c: &mut Cache<String, u64>, k: String, v: u64)
    ensures
        kept_ids(*final(c)) == kept_ids(*old(c)).insert(k@, v),
{
    c.insert(k, v)
}

/// `Cache::invalidate`: takes a key out.
#[verifier::external_body]
pub(crate) fn drop_id(c: &mut Cache<String, u64>, k: &str)
    ensures
        kept_ids(*final(c)) == kept_ids(*old(c)).remove(k@),
{
    c.invalidate(k)
}

// ---------------------------------------------------------------------------
// What the storage says of files
// ---------------------------------------------------------------------------

/// What was put into a cache of what the storage says of files and was neither replaced nor taken
/// out since. What the cache still holds is among it.
pub uninterp spec fn kept_statuses(c: Cache<u64, FileStatus>) -> Map<u64, FileStatus>;

/// An empty cache that holds at most `capacity` entries, none for longer than `ttl_secs`:
/// `Cache::builder`, with `max_capacity`, `time_to_live` and `build`, which panics where the time is
/// longer than a thousand years.
#[verifier::external_body]
pub(crate) fn new_statuses(capacity: u64, ttl_secs: u64) -> (r: Cache<u64, FileStatus>)
    requires
        ttl_secs <= MAX_TTL_SECS,
    ensures
        (kept_statuses(r) == Map::<u64, FileStatus>::empty()),
{
    Cache::builder().max_capacity(capacity).time_to_live(
        std::time::Duration::from_secs(ttl_secs),
    ).build()
}

/// `Cache::get`: the value of a key, if the cache still holds one.
#[verifier::external_body]
pub(crate) fn get_status(c: &Cache<u64, FileStatus>, k: &u64) -> (r: Option<FileStatus>)
    ensures
        r is Some ==> kept_statuses(*c).contains_key(*k) && r->Some_0 == kept_statuses(*c)[*k],
{
    c.get(k)
}

/// `Cache::insert`: gives a key a value, in place of the one that it had.
#[verifier::external_body]
pub(crate) fn put_status(c: &mut Cache<u64, FileStatus>, k: u64, v: FileStatus)
    ensures
        kept_statuses(*final(c)) == kept_statuses(*old(c)).insert(k, v),
{
    c.insert(k, v)
}

/// `Cache::invalidate`: takes a key out.
#[verifier::external_body]
pub(crate) fn drop_status(c: &mut Cache<u64, FileStatus>, k: &u64)
    ensures
        kept_statuses(*final(c)) == kept_statuses(*old(c)).remove(*k),
{
    c.invalidate(k)
}

// ---------------------------------------------------------------------------
// The contents of small files
// ---------------------------------------------------------------------------

/// What was put into a cache of the contents of small files and was neither replaced nor taken out
/// since. What the cache still holds is among it.
pub uninterp spec fn kept_data(c: Cache<u64, Vec<u8>>) -> Map<u64, Seq<u8>>;

/// An empty cache that holds at most `capacity` entries, none for longer than `ttl_secs`:
/// `Cache::builder`, with `max_capacity`, `time_to_live` and `build`, which panics where the time is
/// longer than a thousand years.
#[verifier::external_body]
pub(crate) fn new_data(capacity: u64, ttl_secs: u64) -> (r: Cache<u64, Vec<u8>>)
    requires
        ttl_secs <= MAX_TTL_SECS,
    ensures
        (kept_data(r) == Map::<u64, Seq<u8>>::empty()),
{
    Cache::builder().max_capacity(capacity).time_to_live(
        std::time::Duration::from_secs(ttl_secs),
    ).build()
}

/// `Cache::get`: the value of a key, if the cache still holds one.
#[verifier::external_body]
pub(crate) fn get_data(c: &Cache<u64, Vec<u8>>, k: &u64) -> (r: Option<Vec<u8>>)
    ensures
        r is Some ==> kept_data(*c).contains_key(*k) && r->Some_0@ == kept_data(*c)[*k],
{
    c.get(k)
}

/// `Cache::insert`: gives a key a value, in place of the one that it had.
#[verifier::external_body]
pub(crate) fn put_data(c: &mut Cache<u64, Vec<u8>>, k: u64, v: Vec<u8>)
    ensures
        kept_data(*final(c)) == kept_data(*old(c)).insert(k, v@),
{
    c.insert(k, v)
}

/// `Cache::invalidate`: takes a key out.
#[verifier::external_body]
pub(crate) fn drop_data(c: &mut Cache<u64, Vec<u8>>, k: &u64)
    ensures
        kept_data(*final(c)) == kept_data(*old(c)).remove(*k),
{
    c.invalidate(k)
}

} // verus!
