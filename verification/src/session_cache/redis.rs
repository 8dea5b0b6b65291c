//! How pins are laid out in a shared key-value store.

use crate::text::concat2;
use vstd::prelude::*;

verus! {

pub const KEY_PREFIX: &'static str = "plano:affinity:";

/// The key of a session in the shared store.
pub fn make_key(key: &str) -> (r: String)
    ensures
        r@ == KEY_PREFIX@ + key@,
{
    concat2(KEY_PREFIX, key)
}

/// How long an entry is kept and until when it is fresh, in seconds. The
/// store keeps it for the stale window; `logical_expires_at` marks the
/// boundary between fresh and stale.
#[derive(Debug, Clone, Copy, PartialEq, Eq, Structural)]
pub struct EntryTimes {
    pub logical_expires_at: u64,
    pub physical_ttl_secs: u64,
}

/// The time an entry is fresh: at least one second.
pub open spec fn fresh_seconds(ttl_secs: u64) -> u64 {
    if ttl_secs == 0 { 1 } else { ttl_secs }
}

/// Whether these are the times of an entry.
pub open spec fn times_fit(now: u64, ttl_secs: u64, stale_factor: u64, r: EntryTimes) -> bool {
    &&& r.logical_expires_at == now + fresh_seconds(ttl_secs)
    &&& r.physical_ttl_secs == fresh_seconds(ttl_secs) * stale_factor
}

/// Whether an entry is stale at a second.
pub open spec fn stale(logical_expires_at: Option<u64>, now: u64) -> bool {
    match logical_expires_at {
        Some(t) => now >= t,
        None => false,
    }
}

/// The times of an entry written at second `now`, kept `stale_factor` times
/// as long as it is fresh.
pub fn entry_times(now: u64, ttl_secs: u64, stale_factor: u64) -> (r: EntryTimes)
    requires
        now + fresh_seconds(ttl_secs) <= u64::MAX,
        fresh_seconds(ttl_secs) * stale_factor <= u64::MAX,
    ensures
        times_fit(now, ttl_secs, stale_factor, r),
{
    let fresh: u64 = if ttl_secs == 0 { 1 } else { ttl_secs };
    EntryTimes { logical_expires_at: now + fresh, physical_ttl_secs: fresh * stale_factor }
}

/// Whether an entry is stale at second `now`. One without a boundary is
/// fresh until the store drops it.
pub fn is_stale(logical_expires_at: Option<u64>, now: u64) -> (b: bool)
    ensures
        b == stale(logical_expires_at, now),
{
    match logical_expires_at {
        Some(t) => now >= t,
        None => false,
    }
}

/// An entry is fresh for its time to live, and for a second where that is
/// none; it is kept in all as many times as long as the factor says.
pub proof fn entry_is_fresh_for_its_time(
    now: u64,
    ttl_secs: u64,
    stale_factor: u64,
    r: EntryTimes,
    later: u64,
)
    requires
        times_fit(now, ttl_secs, stale_factor, r),
        now <= later,
    ensures
        ttl_secs > 0 ==> (stale(Some(r.logical_expires_at), later) <==> later - now >= ttl_secs),
        ttl_secs == 0 ==> (stale(Some(r.logical_expires_at), later) <==> later > now),
        !stale(None, later),
        ttl_secs > 0 ==> r.physical_ttl_secs == ttl_secs * stale_factor,
        ttl_secs == 0 ==> r.physical_ttl_secs == stale_factor,
{
    assert(1 * stale_factor == stale_factor);
}

/// Different sessions have different keys.
pub proof fn sessions_have_their_own_keys(a: Seq<char>, b: Seq<char>)
    requires
        KEY_PREFIX@ + a == KEY_PREFIX@ + b,
    ensures
        a == b,
{
    assert((KEY_PREFIX@ + a).skip(KEY_PREFIX@.len() as int) =~= a);
    assert((KEY_PREFIX@ + b).skip(KEY_PREFIX@.len() as int) =~= b);
}

} // verus!
