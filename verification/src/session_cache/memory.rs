//! Session bindings kept in memory.

use crate::expiring_map::{
    current, living, size_is_number_of_keys, takes_in, ExpiringMap, Stamped,
};
use crate::session_cache::SessionBinding;
use vstd::prelude::*;

verus! {

/// Bounded in-process store of session bindings. Each binding is kept for its
/// own time to live, which only bounds memory: whether a cache is warm is for
/// the caller to judge.
pub struct MemorySessionCache {
    store: ExpiringMap<SessionBinding>,
}

impl View for MemorySessionCache {
    type V = Map<Seq<char>, Stamped<SessionBinding>>;

    closed spec fn view(&self) -> Map<Seq<char>, Stamped<SessionBinding>> {
        self.store@
    }
}

impl MemorySessionCache {
    /// Whether every session stands in the store once.
    pub closed spec fn wf(&self) -> bool {
        self.store.wf()
    }

    /// The number of sessions in the store.
    pub closed spec fn size(&self) -> nat {
        self.store.size()
    }

    /// The number of sessions from which on room is made for a new one.
    pub closed spec fn limit(&self) -> nat {
        self.store.limit()
    }

    /// An empty store for `max_entries` sessions.
    pub fn new(max_entries: usize) -> (r: Self)
        ensures
            r.wf(),
            r.size() == 0,
            r.limit() == max_entries,
            r@ == Map::<Seq<char>, Stamped<SessionBinding>>::empty(),
    {
        MemorySessionCache { store: ExpiringMap::new(max_entries) }
    }

    /// Look up a session binding by key at time `now` (milliseconds).
    pub fn get(&self, key: &str, now: u64) -> (r: Option<SessionBinding>)
        requires
            self.wf(),
        ensures
            match r {
                Some(b) => current(self@, key@, now) is Some && b@ == current(
                    self@,
                    key@,
                    now,
                )->0@,
                None => current(self@, key@, now) is None,
            },
    {
        match self.store.get(key, now) {
            Some(b) => Some(b.clone()),
            None => None,
        }
    }

    /// Store a session binding at time `now` for `ttl` milliseconds. A full
    /// store drops its oldest session to make room for a new one.
    pub fn put(&mut self, key: &str, binding: SessionBinding, now: u64, ttl: u64)
        requires
            old(self).wf(),
        ensures
            final(self).wf(),
            final(self).limit() == old(self).limit(),
            takes_in(
                old(self)@,
                old(self).size(),
                old(self).limit(),
                key@,
                (Stamped { value: binding, stored_at: now, ttl }),
                final(self)@,
                final(self).size(),
            ),
    {
        self.store.put(key, binding, now, ttl);
    }

    /// Remove a session binding by key.
    pub fn remove(&mut self, key: &str)
        requires
            old(self).wf(),
        ensures
            final(self).wf(),
            final(self).limit() == old(self).limit(),
            final(self)@ == old(self)@.remove(key@),
            final(self).size() == old(self).size() - (if old(self)@.contains_key(key@) {
                1int
            } else {
                0
            }),
    {
        self.store.remove(key);
    }

    /// Drops the bindings whose time is over at time `now`, and returns their number.
    pub fn cleanup_expired(&mut self, now: u64) -> (removed: usize)
        requires
            old(self).wf(),
        ensures
            final(self).wf(),
            final(self).limit() == old(self).limit(),
            final(self)@ == living(old(self)@, now),
            removed == old(self).size() - final(self).size(),
    {
        self.store.cleanup_expired(now)
    }

    /// The size of a store is the number of its sessions.
    pub proof fn size_is_number_of_sessions(&self)
        requires
            self.wf(),
        ensures
            self@.dom().finite(),
            self.size() == self@.dom().len(),
    {
        size_is_number_of_keys(self.store);
    }
}

} // verus!
