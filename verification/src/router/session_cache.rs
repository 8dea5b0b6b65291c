//! Routing decisions by session, in memory.

use crate::expiring_map::{living, size_is_number_of_keys, takes_in, ExpiringMap, Stamped};
use crate::session_cache::clone_opt;
use crate::signals::schemas::opt_text;
use vstd::prelude::*;

verus! {

/// A cached routing decision stored by session ID.
#[derive(Debug)]
pub struct CachedRoute {
    pub model_name: String,
    pub route_name: Option<String>,
    /// Milliseconds since the UNIX epoch when this entry was created. Used
    /// for time-to-live checks and eviction ordering.
    pub cached_at_ms: u64,
}

/// What a [`CachedRoute`] says.
pub struct CachedFacts {
    pub model_name: Seq<char>,
    pub route_name: Option<Seq<char>>,
    pub cached_at_ms: u64,
}

impl View for CachedRoute {
    type V = CachedFacts;

    open spec fn view(&self) -> CachedFacts {
        CachedFacts {
            model_name: self.model_name@,
            route_name: opt_text(self.route_name),
            cached_at_ms: self.cached_at_ms,
        }
    }
}

impl Clone for CachedRoute {
    fn clone(&self) -> (r: Self)
        ensures
            r@ == self@,
    {
        CachedRoute {
            model_name: self.model_name.clone(),
            route_name: clone_opt(&self.route_name),
            cached_at_ms: self.cached_at_ms,
        }
    }
}

/// In-process session cache: every entry lives equally long, and a full cache
/// drops its oldest entry for a new session.
pub struct MemorySessionCache {
    inner: ExpiringMap<CachedRoute>,
    ttl_ms: u64,
}

impl View for MemorySessionCache {
    type V = Map<Seq<char>, Stamped<CachedRoute>>;

    closed spec fn view(&self) -> Map<Seq<char>, Stamped<CachedRoute>> {
        self.inner@
    }
}

impl MemorySessionCache {
    /// Whether every session stands in the cache once, from the moment its
    /// decision was made, for the time to live.
    pub closed spec fn wf(&self) -> bool {
        &&& self.inner.wf()
        &&& forall|k: Seq<char>| #[trigger]
            self.inner@.contains_key(k) ==> self.inner@[k].ttl == self.ttl_ms
                && self.inner@[k].stored_at == self.inner@[k].value.cached_at_ms
    }

    /// How long an entry lives, in milliseconds.
    pub closed spec fn ttl(&self) -> u64 {
        self.ttl_ms
    }

    /// The number of entries, dead ones included.
    pub closed spec fn size(&self) -> nat {
        self.inner.size()
    }

    /// The number of entries from which on room is made for a new session.
    pub closed spec fn limit(&self) -> nat {
        self.inner.limit()
    }

    /// An empty cache.
    pub fn new(ttl_ms: u64, max_entries: usize) -> (r: Self)
        ensures
            r.wf(),
            r.size() == 0,
            r.ttl() == ttl_ms,
            r.limit() == max_entries,
            r@ == Map::<Seq<char>, Stamped<CachedRoute>>::empty(),
    {
        MemorySessionCache { inner: ExpiringMap::new(max_entries), ttl_ms }
    }

    /// Return a cached route for `session_id`, or `None` if absent or expired
    /// at time `now` (milliseconds).
    pub fn get(&self, session_id: &str, now: u64) -> (r: Option<CachedRoute>)
        requires
            self.wf(),
        ensures
            ({
                let age = if self@[session_id@].value.cached_at_ms <= now {
                    now - self@[session_id@].value.cached_at_ms
                } else {
                    0
                };
                let found = self@.contains_key(session_id@) && age < self.ttl();
                match r {
                    Some(route) => found && route@ == self@[session_id@].value@,
                    None => !found,
                }
            }),
    {
        match self.inner.get(session_id, now) {
            Some(r) => Some(r.clone()),
            None => None,
        }
    }

    /// Store a routing decision for `session_id`.
    pub fn put(&mut self, session_id: &str, route: CachedRoute)
        requires
            old(self).wf(),
        ensures
            final(self).wf(),
            final(self).limit() == old(self).limit(),
            final(self).ttl() == old(self).ttl(),
            takes_in(
                old(self)@,
                old(self).size(),
                old(self).limit(),
                session_id@,
                (Stamped { value: route, stored_at: route.cached_at_ms, ttl: old(self).ttl() }),
                final(self)@,
                final(self).size(),
            ),
    {
        let stored_at: u64 = route.cached_at_ms;
        self.inner.put(session_id, route, stored_at, self.ttl_ms);
    }

    /// Remove a session entry explicitly.
    pub fn remove(&mut self, session_id: &str)
        requires
            old(self).wf(),
        ensures
            final(self).wf(),
            final(self).limit() == old(self).limit(),
            final(self).ttl() == old(self).ttl(),
            final(self)@ == old(self)@.remove(session_id@),
            final(self).size() == old(self).size() - (if old(self)@.contains_key(session_id@) {
                1int
            } else {
                0
            }),
    {
        self.inner.remove(session_id);
    }

    /// Evict all entries that are expired at time `now`, and return their number.
    pub fn cleanup_expired(&mut self, now: u64) -> (removed: usize)
        requires
            old(self).wf(),
        ensures
            final(self).wf(),
            final(self).limit() == old(self).limit(),
            final(self).ttl() == old(self).ttl(),
            final(self)@ == living(old(self)@, now),
            removed == old(self).size() - final(self).size(),
    {
        self.inner.cleanup_expired(now)
    }

    /// The size of a cache is the number of its sessions.
    pub proof fn size_is_number_of_sessions(&self)
        requires
            self.wf(),
        ensures
            self@.dom().finite(),
            self.size() == self@.dom().len(),
    {
        size_is_number_of_keys(self.inner);
    }
}

} // verus!
