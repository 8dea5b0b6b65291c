//! A bounded map from text keys to values that expire.
//!
//! Every entry carries the time it was stored at and the time it lives. An
//! entry that has outlived its time is no longer handed out; a full map makes
//! room for a new key by dropping its oldest entry.

use crate::text::same_text;
use vstd::prelude::*;

verus! {

/// A value with the time it was stored at and the time it lives, both in
/// milliseconds.
pub struct Stamped<V> {
    pub value: V,
    pub stored_at: u64,
    pub ttl: u64,
}

impl<V> Stamped<V> {
    /// Whether the value is still alive at time `now`.
    pub open spec fn alive(self, now: u64) -> bool {
        (if now >= self.stored_at { now - self.stored_at } else { 0 }) < self.ttl
    }
}

struct Entry<V> {
    key: String,
    stamped: Stamped<V>,
}

/// A bounded map from text keys to values that expire.
pub struct ExpiringMap<V> {
    entries: Vec<Entry<V>>,
    max_entries: usize,
}

spec fn distinct_keys<V>(s: Seq<Entry<V>>) -> bool {
    forall|i: int, j: int|
        0 <= i < j < s.len() ==> (#[trigger] s[i]).key@ != (#[trigger] s[j]).key@
}

spec fn has_key<V>(s: Seq<Entry<V>>, k: Seq<char>) -> bool {
    exists|i: int| 0 <= i < s.len() && (#[trigger] s[i]).key@ == k
}

spec fn position<V>(s: Seq<Entry<V>>, k: Seq<char>) -> int {
    choose|i: int| 0 <= i < s.len() && (#[trigger] s[i]).key@ == k
}

spec fn map_of<V>(s: Seq<Entry<V>>) -> Map<Seq<char>, Stamped<V>> {
    Map::new(|k: Seq<char>| has_key(s, k), |k: Seq<char>| s[position(s, k)].stamped)
}

proof fn lemma_position<V>(s: Seq<Entry<V>>, i: int)
    requires
        distinct_keys(s),
        0 <= i < s.len(),
    ensures
        has_key(s, s[i].key@),
        position(s, s[i].key@) == i,
{
    let j = position(s, s[i].key@);
    assert(0 <= j < s.len() && s[j].key@ == s[i].key@);
}

proof fn lemma_insert<V>(s: Seq<Entry<V>>, e: Entry<V>)
    requires
        distinct_keys(s),
        !has_key(s, e.key@),
    ensures
        distinct_keys(s.push(e)),
        map_of(s.push(e)) == map_of(s).insert(e.key@, e.stamped),
{
    let t = s.push(e);
    assert(distinct_keys(t));
    assert forall|k: Seq<char>| has_key(t, k) == (has_key(s, k) || k == e.key@) by {
        if has_key(t, k) {
            let i = position(t, k);
            if i < s.len() {
                assert(s[i] == t[i]);
            }
        }
        if has_key(s, k) {
            let i = position(s, k);
            assert(t[i] == s[i]);
        }
        if k == e.key@ {
            assert(t[s.len() as int] == e);
        }
    }
    assert forall|k: Seq<char>| has_key(t, k) implies map_of(t)[k] == map_of(s).insert(
        e.key@,
        e.stamped,
    )[k] by {
        if k == e.key@ {
            lemma_position(t, s.len() as int);
        } else {
            let i = position(s, k);
            assert(t[i] == s[i]);
            lemma_position(t, i);
        }
    }
    assert(map_of(t) =~= map_of(s).insert(e.key@, e.stamped));
}

proof fn lemma_replace<V>(s: Seq<Entry<V>>, p: int, e: Entry<V>)
    requires
        distinct_keys(s),
        0 <= p < s.len(),
        s[p].key@ == e.key@,
    ensures
        distinct_keys(s.update(p, e)),
        map_of(s.update(p, e)) == map_of(s).insert(e.key@, e.stamped),
{
    let t = s.update(p, e);
    assert forall|i: int, j: int| 0 <= i < j < t.len() implies (#[trigger] t[i]).key@ != (
    #[trigger] t[j]).key@ by {
        assert(t[i].key@ == s[i].key@);
        assert(t[j].key@ == s[j].key@);
    }
    assert forall|k: Seq<char>| has_key(t, k) == (has_key(s, k) || k == e.key@) by {
        if has_key(t, k) {
            let i = position(t, k);
            assert(s[i].key@ == t[i].key@);
        }
        if has_key(s, k) {
            let i = position(s, k);
            assert(t[i].key@ == s[i].key@);
        }
        if k == e.key@ {
            assert(t[p] == e);
        }
    }
    assert forall|k: Seq<char>| has_key(t, k) implies map_of(t)[k] == map_of(s).insert(
        e.key@,
        e.stamped,
    )[k] by {
        if k == e.key@ {
            lemma_position(t, p);
        } else {
            let i = position(s, k);
            assert(i != p);
            assert(t[i] == s[i]);
            lemma_position(t, i);
        }
    }
    assert(map_of(t) =~= map_of(s).insert(e.key@, e.stamped));
}

proof fn lemma_remove<V>(s: Seq<Entry<V>>, p: int)
    requires
        distinct_keys(s),
        0 <= p < s.len(),
    ensures
        distinct_keys(s.remove(p)),
        !has_key(s.remove(p), s[p].key@),
        map_of(s.remove(p)) == map_of(s).remove(s[p].key@),
{
    let t = s.remove(p);
    let gone = s[p].key@;
    assert forall|i: int, j: int| 0 <= i < j < t.len() implies (#[trigger] t[i]).key@ != (
    #[trigger] t[j]).key@ by {
        let a = if i < p { i } else { i + 1 };
        let b = if j < p { j } else { j + 1 };
        assert(t[i] == s[a]);
        assert(t[j] == s[b]);
    }
    assert forall|k: Seq<char>| has_key(t, k) == (has_key(s, k) && k != gone) by {
        if has_key(t, k) {
            let i = position(t, k);
            let a = if i < p { i } else { i + 1 };
            assert(t[i] == s[a]);
            assert(s[a].key@ == k);
        }
        if has_key(s, k) && k != gone {
            let a = position(s, k);
            assert(a != p);
            let i = if a < p { a } else { a - 1 };
            assert(t[i] == s[a]);
        }
    }
    assert forall|k: Seq<char>| has_key(t, k) implies map_of(t)[k] == map_of(s).remove(gone)[k] by {
        let a = position(s, k);
        assert(s[a].key@ == k);
        assert(a != p);
        let i = if a < p { a } else { a - 1 };
        assert(t[i] == s[a]);
        lemma_position(t, i);
    }
    assert(map_of(t) =~= map_of(s).remove(gone));
}

impl<V> View for ExpiringMap<V> {
    type V = Map<Seq<char>, Stamped<V>>;

    closed spec fn view(&self) -> Map<Seq<char>, Stamped<V>> {
        map_of(self.entries@)
    }
}

/// Whether `k` is a key of `m` that no other key is older than.
pub open spec fn is_oldest<V>(m: Map<Seq<char>, Stamped<V>>, k: Seq<char>) -> bool {
    &&& m.contains_key(k)
    &&& forall|other: Seq<char>|
        m.contains_key(other) ==> m[k].stored_at <= (#[trigger] m[other]).stored_at
}

/// The value under a key that is still alive at a time.
pub open spec fn current<V>(m: Map<Seq<char>, Stamped<V>>, key: Seq<char>, now: u64) -> Option<V> {
    if m.contains_key(key) && m[key].alive(now) {
        Some(m[key].value)
    } else {
        None
    }
}

/// The entries that are still alive at a time.
pub open spec fn living<V>(m: Map<Seq<char>, Stamped<V>>, now: u64) -> Map<Seq<char>, Stamped<V>> {
    Map::new(|k: Seq<char>| m.contains_key(k) && m[k].alive(now), |k: Seq<char>| m[k])
}

/// Whether a map with room for `limit` entries that holds `entry` in addition
/// to what it held is `after`: where there was no room for a new key, an
/// oldest entry is gone.
pub open spec fn takes_in<V>(
    before: Map<Seq<char>, Stamped<V>>,
    size: nat,
    limit: nat,
    key: Seq<char>,
    entry: Stamped<V>,
    after: Map<Seq<char>, Stamped<V>>,
    new_size: nat,
) -> bool {
    if before.contains_key(key) {
        &&& after == before.insert(key, entry)
        &&& new_size == size
    } else if size >= limit && size > 0 {
        &&& exists|victim: Seq<char>| #[trigger] is_oldest(before, victim) && after
            == before.remove(victim).insert(key, entry)
        &&& new_size == size
    } else {
        &&& after == before.insert(key, entry)
        &&& new_size == size + 1
    }
}

impl<V> ExpiringMap<V> {
    /// Whether every key stands in the map once.
    pub closed spec fn wf(&self) -> bool {
        distinct_keys(self.entries@)
    }

    /// The number of entries, dead ones included.
    pub closed spec fn size(&self) -> nat {
        self.entries@.len()
    }

    /// The number of entries from which on room is made for a new key.
    pub closed spec fn limit(&self) -> nat {
        self.max_entries as nat
    }

    /// An empty map for `max_entries` entries.
    pub fn new(max_entries: usize) -> (r: Self)
        ensures
            r.wf(),
            r.size() == 0,
            r.limit() == max_entries,
            r@ == Map::<Seq<char>, Stamped<V>>::empty(),
    {
        let r: ExpiringMap<V> = ExpiringMap { entries: Vec::new(), max_entries };
        assert(r@ =~= Map::<Seq<char>, Stamped<V>>::empty());
        r
    }

    /// The number of entries, dead ones included.
    pub fn len(&self) -> (n: usize)
        ensures
            n == self.size(),
    {
        self.entries.len()
    }

    fn find(&self, key: &str) -> (r: Option<usize>)
        requires
            self.wf(),
        ensures
            match r {
                Some(i) => i < self.entries@.len() && self.entries@[i as int].key@ == key@
                    && self@.contains_key(key@) && self@[key@] == self.entries@[i as int].stamped,
                None => !self@.contains_key(key@) && !has_key(self.entries@, key@),
            },
    {
        let mut i: usize = 0;
        while i < self.entries.len()
            invariant
                i <= self.entries.len(),
                self.wf(),
                forall|j: int| 0 <= j < i ==> (#[trigger] self.entries@[j]).key@ != key@,
            decreases self.entries.len() - i,
        {
            if same_text(self.entries[i].key.as_str(), key) {
                proof {
                    lemma_position(self.entries@, i as int);
                }
                return Some(i);
            }
            i += 1;
        }
        None
    }

    /// The value stored under a key, if it is still alive at time `now`.
    pub fn get(&self, key: &str, now: u64) -> (r: Option<&V>)
        requires
            self.wf(),
        ensures
            match r {
                Some(v) => current(self@, key@, now) == Some(*v),
                None => current(self@, key@, now) is None,
            },
    {
        match self.find(key) {
            Some(i) => {
                let e: &Entry<V> = &self.entries[i];
                if now.saturating_sub(e.stamped.stored_at) < e.stamped.ttl {
                    Some(&e.stamped.value)
                } else {
                    None
                }
            },
            None => None,
        }
    }

    /// Whether a key stands in the map, alive or dead.
    pub fn contains_key(&self, key: &str) -> (b: bool)
        requires
            self.wf(),
        ensures
            b == self@.contains_key(key@),
    {
        self.find(key).is_some()
    }

    fn oldest(&self) -> (p: usize)
        requires
            self.wf(),
            self.entries@.len() > 0,
        ensures
            p < self.entries@.len(),
            is_oldest(self@, self.entries@[p as int].key@),
    {
        let mut best: usize = 0;
        let mut i: usize = 1;
        while i < self.entries.len()
            invariant
                self.wf(),
                1 <= i <= self.entries.len(),
                best < i,
                forall|j: int|
                    0 <= j < i ==> self.entries@[best as int].stamped.stored_at <= (
                    #[trigger] self.entries@[j]).stamped.stored_at,
            decreases self.entries.len() - i,
        {
            if self.entries[i].stamped.stored_at < self.entries[best].stamped.stored_at {
                best = i;
            }
            i += 1;
        }
        proof {
            let k = self.entries@[best as int].key@;
            lemma_position(self.entries@, best as int);
            assert forall|other: Seq<char>| self@.contains_key(other) implies self@[k].stored_at
                <= (#[trigger] self@[other]).stored_at by {
                let j = position(self.entries@, other);
                assert(0 <= j < self.entries@.len());
                assert(self.entries@[j].stamped.stored_at >= self.entries@[best as int].stamped.stored_at);
            }
        }
        best
    }

    /// Stores a value. A full map drops its oldest entry to make room for a
    /// new key; storing under a key already there drops nothing.
    pub fn put(&mut self, key: &str, value: V, stored_at: u64, ttl: u64)
        requires
            old(self).wf(),
        ensures
            final(self).wf(),
            final(self).limit() == old(self).limit(),
            takes_in(
                old(self)@,
                old(self).size(),
                old(self).limit(),
                key@,
                (Stamped { value, stored_at, ttl }),
                final(self)@,
                final(self).size(),
            ),
    {
        let stamped: Stamped<V> = Stamped { value, stored_at, ttl };
        match self.find(key) {
            Some(i) => {
                let entry: Entry<V> = Entry { key: key.to_owned(), stamped };
                proof {
                    lemma_replace(self.entries@, i as int, entry);
                }
                self.entries.set(i, entry);
            },
            None => {
                let ghost before = self.entries@;
                if self.entries.len() >= self.max_entries && self.entries.len() > 0 {
                    let p: usize = self.oldest();
                    let ghost victim = self.entries@[p as int].key@;
                    proof {
                        lemma_remove(self.entries@, p as int);
                        assert(!has_key(self.entries@.remove(p as int), key@)) by {
                            if has_key(self.entries@.remove(p as int), key@) {
                                assert(map_of(self.entries@.remove(p as int)).contains_key(key@));
                            }
                        }
                    }
                    self.entries.remove(p);
                    let entry: Entry<V> = Entry { key: key.to_owned(), stamped };
                    proof {
                        lemma_insert(self.entries@, entry);
                    }
                    self.entries.push(entry);
                    assert(is_oldest(old(self)@, victim) && self@ == old(self)@.remove(
                        victim,
                    ).insert(key@, stamped));
                } else {
                    let entry: Entry<V> = Entry { key: key.to_owned(), stamped };
                    proof {
                        lemma_insert(self.entries@, entry);
                    }
                    self.entries.push(entry);
                }
            },
        }
    }

    /// Removes a key.
    pub fn remove(&mut self, key: &str)
        requires
            old(self).wf(),
        ensures
            final(self).wf(),
            final(self).limit() == old(self).limit(),
            final(self)@ == old(self)@.remove(key@),
            final(self).size() == old(self).size() - (if old(self)@.contains_key(key@) {
                1int
            } else {
                0
            }),
    {
        match self.find(key) {
            Some(i) => {
                proof {
                    lemma_remove(self.entries@, i as int);
                }
                self.entries.remove(i);
            },
            None => {
                assert(self@.remove(key@) =~= self@);
            },
        }
    }

    /// Drops the entries that are dead at time `now`, and returns their number.
    pub fn cleanup_expired(&mut self, now: u64) -> (removed: usize)
        requires
            old(self).wf(),
        ensures
            final(self).wf(),
            final(self).limit() == old(self).limit(),
            final(self)@ == living(old(self)@, now),
            removed == old(self).size() - final(self).size(),
    {
        let ghost start = self@;
        let total: usize = self.entries.len();
        let mut i: usize = 0;
        let mut removed: usize = 0;
        while i < self.entries.len()
            invariant
                self.wf(),
                i <= self.entries@.len(),
                self.entries@.len() + removed == total,
                self.limit() == old(self).limit(),
                forall|k: Seq<char>| #[trigger] self@.contains_key(k) ==> start.contains_key(k) && self@[k]
                    == start[k],
                forall|k: Seq<char>|
                    #[trigger] start.contains_key(k) && start[k].alive(now) ==> self@.contains_key(
                        k,
                    ),
                forall|j: int|
                    0 <= j < i ==> (#[trigger] self.entries@[j]).stamped.alive(now),
            decreases self.entries.len() - i,
        {
            let e: &Entry<V> = &self.entries[i];
            let live: bool = now.saturating_sub(e.stamped.stored_at) < e.stamped.ttl;
            if live {
                i += 1;
            } else {
                let ghost gone = self.entries@[i as int].key@;
                proof {
                    lemma_position(self.entries@, i as int);
                    lemma_remove(self.entries@, i as int);
                }
                let ghost before = self@;
                let ghost entries_before = self.entries@;
                self.entries.remove(i);
                removed += 1;
                proof {
                    assert(self@ == before.remove(gone));
                    assert forall|j: int| 0 <= j < i implies (
                    #[trigger] self.entries@[j]).stamped.alive(now) by {
                        assert(self.entries@[j] == entries_before[j]);
                    }
                    assert forall|k: Seq<char>|
                        #[trigger] start.contains_key(k) && start[k].alive(
                            now,
                        ) implies self@.contains_key(k) by {
                        assert(before.contains_key(k));
                    }
                    assert forall|k: Seq<char>| #[trigger] self@.contains_key(k) implies start.contains_key(
                        k,
                    ) && self@[k] == start[k] by {
                        assert(before.contains_key(k));
                    }
                }
            }
        }
        proof {
            assert forall|k: Seq<char>| #[trigger] self@.contains_key(k) implies self@[k].alive(now) by {
                let j = position(self.entries@, k);
                assert(0 <= j < self.entries@.len());
                assert(self.entries@[j].stamped.alive(now));
            }
            assert(self@ =~= living(start, now));
        }
        removed
    }
}

proof fn lemma_map_size<V>(s: Seq<Entry<V>>)
    requires
        distinct_keys(s),
    ensures
        map_of(s).dom().finite(),
        map_of(s).dom().len() == s.len(),
    decreases s.len(),
{
    if s.len() == 0 {
        assert(map_of(s).dom() =~= Set::empty());
    } else {
        let rest = s.drop_last();
        let e = s.last();
        assert forall|i: int, j: int| 0 <= i < j < rest.len() implies (#[trigger] rest[i]).key@ != (
        #[trigger] rest[j]).key@ by {
            assert(rest[i] == s[i]);
            assert(rest[j] == s[j]);
        }
        assert(!has_key(rest, e.key@)) by {
            if has_key(rest, e.key@) {
                let i = position(rest, e.key@);
                assert(s[i] == rest[i]);
                assert(s[s.len() - 1] == e);
            }
        }
        lemma_map_size(rest);
        lemma_insert(rest, e);
        assert(rest.push(e) =~= s);
        assert(map_of(s).dom() =~= map_of(rest).dom().insert(e.key@));
    }
}

/// The size of a map is the number of its keys.
pub proof fn size_is_number_of_keys<V>(m: ExpiringMap<V>)
    requires
        m.wf(),
    ensures
        m@.dom().finite(),
        m.size() == m@.dom().len(),
{
    lemma_map_size(m.entries@);
}

/// A value just stored is what the key gives back, for as long as it lives.
pub proof fn stored_value_is_found<V>(
    before: Map<Seq<char>, Stamped<V>>,
    after: Map<Seq<char>, Stamped<V>>,
    key: Seq<char>,
    entry: Stamped<V>,
    victim: Seq<char>,
)
    requires
        after == before.insert(key, entry) || after == before.remove(victim).insert(key, entry),
    ensures
        after.contains_key(key),
        after[key] == entry,
        forall|k: Seq<char>|
            k != key && k != victim ==> after.contains_key(k) == before.contains_key(k) && (
            before.contains_key(k) ==> after[k] == before[k]),
{
}

/// A value is handed out from the moment it was stored until its time is
/// over, and no longer.
pub proof fn value_lives_for_its_time<V>(
    before: Map<Seq<char>, Stamped<V>>,
    size: nat,
    limit: nat,
    key: Seq<char>,
    entry: Stamped<V>,
    after: Map<Seq<char>, Stamped<V>>,
    new_size: nat,
    now: u64,
)
    requires
        takes_in(before, size, limit, key, entry, after, new_size),
    ensures
        entry.stored_at <= now < entry.stored_at + entry.ttl ==> current(after, key, now) == Some(
            entry.value,
        ),
        now >= entry.stored_at + entry.ttl ==> current(after, key, now) is None,
        now < entry.stored_at && entry.ttl > 0 ==> current(after, key, now) == Some(entry.value),
{
}

/// Storing a value changes nothing for the other keys, unless the map was full
/// and the key new: one other key goes then, and none that stays is older.
pub proof fn only_the_oldest_makes_room<V>(
    before: Map<Seq<char>, Stamped<V>>,
    size: nat,
    limit: nat,
    key: Seq<char>,
    entry: Stamped<V>,
    after: Map<Seq<char>, Stamped<V>>,
    new_size: nat,
    other: Seq<char>,
    third: Seq<char>,
    now: u64,
)
    requires
        takes_in(before, size, limit, key, entry, after, new_size),
        other != key,
    ensures
        !before.contains_key(other) ==> !after.contains_key(other),
        after.contains_key(other) ==> current(after, other, now) == current(before, other, now),
        before.contains_key(key) || size < limit ==> current(after, other, now) == current(
            before,
            other,
            now,
        ),
        before.contains_key(other) && !after.contains_key(other) ==> !before.contains_key(key)
            && size >= limit && new_size == size,
        before.contains_key(other) && !after.contains_key(other) && before.contains_key(third)
            && third != other ==> after.contains_key(third) && before[other].stored_at <= before[third].stored_at,
        !before.contains_key(key) && size < limit ==> new_size == size + 1,
        before.contains_key(key) ==> new_size == size,
{
}

/// Clearing away what has outlived its time takes no value that would still
/// be handed out, now or later, and leaves none that would not.
pub proof fn clearing_keeps_what_lives<V>(
    m: Map<Seq<char>, Stamped<V>>,
    key: Seq<char>,
    now: u64,
    later: u64,
)
    requires
        now <= later,
    ensures
        current(living(m, now), key, later) == current(m, key, later),
        living(m, now).contains_key(key) == current(m, key, now) is Some,
{
}

} // verus!
