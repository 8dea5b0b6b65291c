//! Spending by entity and period.

use crate::text::same_text;
use dashmap::DashMap;
use vstd::prelude::*;

verus! {

/// A day of the calendar.
#[derive(Debug, Clone, Copy, PartialEq, Eq, Structural)]
pub struct Day {
    pub year: i32,
    pub month: u32,
    pub day: u32,
}

/// A counter key as the counters hold it: entity type and id, period type and
/// the year, month and day its period starts.
pub type CounterTuple = (String, u128, String, (i32, u32, u32));

/// What a [`CounterKey`] says.
pub struct KeyFacts {
    pub entity_type: Seq<char>,
    pub entity_id: u128,
    pub period_type: Seq<char>,
    pub period_start: Day,
}

/// What a [`CounterTuple`] says.
pub open spec fn tuple_facts(t: CounterTuple) -> KeyFacts {
    KeyFacts {
        entity_type: t.0@,
        entity_id: t.1,
        period_type: t.2@,
        period_start: Day { year: (t.3).0, month: (t.3).1, day: (t.3).2 },
    }
}

/// Key for spending counter lookup.
#[derive(Debug)]
pub struct CounterKey {
    pub entity_type: String,
    pub entity_id: u128,
    pub period_type: String,
    pub period_start: Day,
}

impl View for CounterKey {
    type V = KeyFacts;

    open spec fn view(&self) -> KeyFacts {
        KeyFacts {
            entity_type: self.entity_type@,
            entity_id: self.entity_id,
            period_type: self.period_type@,
            period_start: self.period_start,
        }
    }
}

impl Clone for CounterKey {
    fn clone(&self) -> (r: Self)
        ensures
            r@ == self@,
    {
        CounterKey {
            entity_type: self.entity_type.clone(),
            entity_id: self.entity_id,
            period_type: self.period_type.clone(),
            period_start: self.period_start,
        }
    }
}

impl CounterKey {
    fn tuple(&self) -> (r: CounterTuple)
        ensures
            tuple_facts(r) == self@,
    {
        (
            self.entity_type.clone(),
            self.entity_id,
            self.period_type.clone(),
            (self.period_start.year, self.period_start.month, self.period_start.day),
        )
    }
}

fn key_from(t: &CounterTuple) -> (r: CounterKey)
    ensures
        r@ == tuple_facts(*t),
{
    let start: (i32, u32, u32) = t.3;
    CounterKey {
        entity_type: t.0.clone(),
        entity_id: t.1,
        period_type: t.2.clone(),
        period_start: Day { year: start.0, month: start.1, day: start.2 },
    }
}

// ---------------------------------------------------------------------------
// The concurrent map
// ---------------------------------------------------------------------------

#[verifier::external_type_specification]
#[verifier::external_body]
#[verifier::reject_recursive_types(K)]
#[verifier::reject_recursive_types(V)]
#[verifier::reject_recursive_types(S)]
pub struct ExDashMap<K, V, S>(DashMap<K, V, S>);

/// The values a counter map holds, by key. The map is changed through the
/// functions below alone, each of which has it to itself.
pub uninterp spec fn held_totals(m: DashMap<CounterTuple, i64>) -> Map<KeyFacts, i64>;

/// No totals at all.
pub open spec fn no_totals() -> Map<KeyFacts, i64> {
    Map::empty()
}

/// `DashMap::new`: a map that holds nothing.
#[verifier::external_body]
fn empty_map() -> (m: DashMap<CounterTuple, i64>)
    ensures
        held_totals(m) == no_totals(),
{
    DashMap::new()
}

/// `DashMap::get`: the value under a key, if the map holds one.
#[verifier::external_body]
fn map_get(m: &DashMap<CounterTuple, i64>, key: &CounterTuple) -> (r: Option<i64>)
    ensures
        r == (if held_totals(*m).contains_key(tuple_facts(*key)) {
            Some(held_totals(*m)[tuple_facts(*key)])
        } else {
            None
        }),
{
    m.get(key).map(|v| *v)
}

/// `DashMap::insert`: the value under the key is replaced, all others stay.
#[verifier::external_body]
fn map_insert(m: &mut DashMap<CounterTuple, i64>, key: CounterTuple, value: i64)
    ensures
        held_totals(*final(m)) == held_totals(*old(m)).insert(tuple_facts(key), value),
{
    m.insert(key, value);
}

/// Whether a list holds the entries of a map, each once, in some order.
pub open spec fn lists(entries: Seq<(CounterTuple, i64)>, totals: Map<KeyFacts, i64>) -> bool {
    &&& forall|i: int|
        0 <= i < entries.len() ==> totals.contains_key(tuple_facts((#[trigger] entries[i]).0))
            && totals[tuple_facts(entries[i].0)] == entries[i].1
    &&& forall|i: int, j: int|
        0 <= i < j < entries.len() ==> tuple_facts((#[trigger] entries[i]).0) != tuple_facts(
            (#[trigger] entries[j]).0,
        )
    &&& forall|k: KeyFacts| #[trigger]
        totals.contains_key(k) ==> exists|i: int|
            0 <= i < entries.len() && tuple_facts((#[trigger] entries[i]).0) == k
}

/// `DashMap::iter`: every entry once, in no particular order.
#[verifier::external_body]
fn map_entries(m: &DashMap<CounterTuple, i64>) -> (r: Vec<(CounterTuple, i64)>)
    ensures
        lists(r@, held_totals(*m)),
{
    m.iter().map(|e| (e.key().clone(), *e.value())).collect()
}

/// Whether month and day are those of a calendar.
pub open spec fn is_calendar_day(d: Day) -> bool {
    1 <= d.month <= 12 && 1 <= d.day <= 31
}

/// `chrono::Utc::now`, its date: a day of the calendar.
#[verifier::external_body]
fn utc_today() -> (d: Day)
    ensures
        is_calendar_day(d),
{
    let today = chrono::Utc::now().date_naive();
    Day {
        year: chrono::Datelike::year(&today),
        month: chrono::Datelike::month(&today),
        day: chrono::Datelike::day(&today),
    }
}

// ---------------------------------------------------------------------------
// Counters
// ---------------------------------------------------------------------------

/// The day the current period of a type starts. `None` for a type that is
/// neither daily nor monthly.
pub open spec fn start_of(period_type: Seq<char>, today: Day) -> Option<Day> {
    if period_type == "daily"@ {
        Some(today)
    } else if period_type == "monthly"@ {
        Some(Day { year: today.year, month: today.month, day: 1 })
    } else {
        None
    }
}

/// The day the current period of a type starts.
pub fn period_start(period_type: &str, today: Day) -> (r: Option<Day>)
    ensures
        r == start_of(period_type@, today),
{
    if same_text(period_type, "daily") {
        Some(today)
    } else if same_text(period_type, "monthly") {
        Some(Day { year: today.year, month: today.month, day: 1 })
    } else {
        None
    }
}

/// The key of an entity's counter on a day. A period of unknown type is the day.
pub open spec fn key_on(
    entity_type: Seq<char>,
    entity_id: u128,
    period_type: Seq<char>,
    today: Day,
) -> KeyFacts {
    KeyFacts {
        entity_type,
        entity_id,
        period_type,
        period_start: match start_of(period_type, today) {
            Some(d) => d,
            None => today,
        },
    }
}

fn make_key(entity_type: &str, entity_id: u128, period_type: &str, today: Day) -> (r: CounterKey)
    ensures
        r@ == key_on(entity_type@, entity_id, period_type@, today),
{
    let start: Day = match period_start(period_type, today) {
        Some(d) => d,
        None => today,
    };
    CounterKey {
        entity_type: entity_type.to_owned(),
        entity_id,
        period_type: period_type.to_owned(),
        period_start: start,
    }
}

/// The total under a key, 0 where there is none.
pub open spec fn total(totals: Map<KeyFacts, i64>, key: KeyFacts) -> i64 {
    if totals.contains_key(key) { totals[key] } else { 0 }
}

/// The totals with an amount added under a key; a sum that does not fit wraps around.
pub open spec fn plus(totals: Map<KeyFacts, i64>, key: KeyFacts, amount: i64) -> Map<KeyFacts, i64> {
    totals.insert(key, total(totals, key).wrapping_add(amount))
}

/// The totals with every amount of a list added.
pub open spec fn plus_all(totals: Map<KeyFacts, i64>, deltas: Seq<(KeyFacts, i64)>) -> Map<
    KeyFacts,
    i64,
>
    decreases deltas.len(),
{
    if deltas.len() == 0 {
        totals
    } else {
        plus(plus_all(totals, deltas.drop_last()), deltas.last().0, deltas.last().1)
    }
}

/// What a list of deltas says.
pub open spec fn delta_facts(v: Seq<(CounterKey, i64)>) -> Seq<(KeyFacts, i64)> {
    Seq::new(v.len(), |i: int| (v[i].0@, v[i].1))
}

/// Whether a list holds the positive totals, each once, in some order.
pub open spec fn positive_totals(deltas: Seq<(KeyFacts, i64)>, totals: Map<KeyFacts, i64>) -> bool {
    &&& forall|i: int|
        0 <= i < deltas.len() ==> totals.contains_key((#[trigger] deltas[i]).0)
            && totals[deltas[i].0] == deltas[i].1 && deltas[i].1 > 0
    &&& forall|i: int, j: int|
        0 <= i < j < deltas.len() ==> (#[trigger] deltas[i]).0 != (#[trigger] deltas[j]).0
    &&& forall|k: KeyFacts| #[trigger]
        totals.contains_key(k) && totals[k] > 0 ==> exists|i: int|
            0 <= i < deltas.len() && (#[trigger] deltas[i]).0 == k
}

/// The totals with every one of them 0.
pub open spec fn zeroed(totals: Map<KeyFacts, i64>) -> Map<KeyFacts, i64> {
    totals.map_values(|v: i64| 0i64)
}

/// In-memory spending counters, in micro-cents.
pub struct SpendingCounters {
    counters: DashMap<CounterTuple, i64>,
}

impl View for SpendingCounters {
    type V = Map<KeyFacts, i64>;

    closed spec fn view(&self) -> Map<KeyFacts, i64> {
        held_totals(self.counters)
    }
}

impl SpendingCounters {
    /// Counters without any spending.
    pub fn new() -> (r: Self)
        ensures
            r@ == no_totals(),
    {
        SpendingCounters { counters: empty_map() }
    }

    fn add_amount(&mut self, key: &CounterKey, amount: i64) -> (r: i64)
        ensures
            final(self)@ == plus(old(self)@, key@, amount),
            r == total(final(self)@, key@),
    {
        let tuple: CounterTuple = key.tuple();
        let before: i64 = match map_get(&self.counters, &tuple) {
            Some(v) => v,
            None => 0,
        };
        let after: i64 = before.wrapping_add(amount);
        map_insert(&mut self.counters, tuple, after);
        after
    }

    /// Check if a budget would be exceeded on a day. Returns true if within
    /// budget, false if it would be exceeded; a period that is neither daily
    /// nor monthly has no limit.
    pub fn check_budget_on(
        &self,
        entity_type: &str,
        entity_id: u128,
        period_type: &str,
        limit_micro_cents: i64,
        today: Day,
    ) -> (b: bool)
        ensures
            b == within_budget(
                self@,
                entity_type@,
                entity_id,
                period_type@,
                limit_micro_cents,
                today,
            ),
    {
        if period_start(period_type, today).is_none() {
            return true;
        }
        let key: CounterKey = make_key(entity_type, entity_id, period_type, today);
        match map_get(&self.counters, &key.tuple()) {
            Some(v) => v < limit_micro_cents,
            None => true,
        }
    }

    /// Check if a budget would be exceeded today (UTC).
    pub fn check_budget(
        &self,
        entity_type: &str,
        entity_id: u128,
        period_type: &str,
        limit_micro_cents: i64,
    ) -> (b: bool)
        ensures
            exists|today: Day|
                is_calendar_day(today) && b == #[trigger] within_budget(
                    self@,
                    entity_type@,
                    entity_id,
                    period_type@,
                    limit_micro_cents,
                    today,
                ),
    {
        let today: Day = utc_today();
        self.check_budget_on(entity_type, entity_id, period_type, limit_micro_cents, today)
    }

    /// Record usage in micro-cents on a day. Returns the new total.
    pub fn record_usage_on(
        &mut self,
        entity_type: &str,
        entity_id: u128,
        period_type: &str,
        micro_cents: i64,
        today: Day,
    ) -> (r: i64)
        ensures
            ({
                let key = key_on(entity_type@, entity_id, period_type@, today);
                &&& final(self)@ == plus(old(self)@, key, micro_cents)
                &&& r == total(final(self)@, key)
            }),
    {
        let key: CounterKey = make_key(entity_type, entity_id, period_type, today);
        self.add_amount(&key, micro_cents)
    }

    /// Record usage in micro-cents today (UTC). Returns the new total.
    pub fn record_usage(
        &mut self,
        entity_type: &str,
        entity_id: u128,
        period_type: &str,
        micro_cents: i64,
    ) -> (r: i64)
        ensures
            exists|today: Day|
                {
                    let key = #[trigger] key_on(entity_type@, entity_id, period_type@, today);
                    &&& is_calendar_day(today)
                    &&& final(self)@ == plus(old(self)@, key, micro_cents)
                    &&& r == total(final(self)@, key)
                },
    {
        let today: Day = utc_today();
        self.record_usage_on(entity_type, entity_id, period_type, micro_cents, today)
    }

    /// Get current spending for an entity and period on a day.
    pub fn get_current_on(
        &self,
        entity_type: &str,
        entity_id: u128,
        period_type: &str,
        today: Day,
    ) -> (r: i64)
        ensures
            r == total(self@, key_on(entity_type@, entity_id, period_type@, today)),
    {
        let key: CounterKey = make_key(entity_type, entity_id, period_type, today);
        match map_get(&self.counters, &key.tuple()) {
            Some(v) => v,
            None => 0,
        }
    }

    /// Get current spending for an entity and period today (UTC).
    pub fn get_current(&self, entity_type: &str, entity_id: u128, period_type: &str) -> (r: i64)
        ensures
            exists|today: Day|
                is_calendar_day(today) && r == total(
                    self@,
                    #[trigger] key_on(entity_type@, entity_id, period_type@, today),
                ),
    {
        let today: Day = utc_today();
        self.get_current_on(entity_type, entity_id, period_type, today)
    }

    /// Load counters from records (for startup hydration).
    pub fn hydrate(&mut self, records: &Vec<(CounterKey, i64)>)
        ensures
            final(self)@ == plus_all(old(self)@, delta_facts(records@)),
    {
        self.restore_deltas(records);
    }

    /// Snapshot all counter deltas and reset to 0. Returns the positive
    /// deltas for flushing.
    pub fn snapshot_and_reset(&mut self) -> (deltas: Vec<(CounterKey, i64)>)
        ensures
            positive_totals(delta_facts(deltas@), old(self)@),
            final(self)@ == zeroed(old(self)@),
    {
        let ghost before = self@;
        let entries: Vec<(CounterTuple, i64)> = map_entries(&self.counters);
        let mut deltas: Vec<(CounterKey, i64)> = Vec::new();
        let mut i: usize = 0;
        while i < entries.len()
            invariant
                i <= entries@.len(),
                lists(entries@, before),
                self@.dom() =~= before.dom(),
                forall|j: int|
                    0 <= j < i ==> self@[tuple_facts((#[trigger] entries@[j]).0)] == 0,
                forall|j: int| 0 <= j < deltas@.len() ==> came_from(#[trigger] deltas@[j], entries@, i as int),
                forall|a: int, b: int|
                    0 <= a < b < deltas@.len() ==> (#[trigger] deltas@[a]).0@ != (
                    #[trigger] deltas@[b]).0@,
                forall|j: int|
                    0 <= j < i && (#[trigger] entries@[j]).1 > 0 ==> exists|d: int|
                        0 <= d < deltas@.len() && (#[trigger] deltas@[d]).0@ == tuple_facts(
                            entries@[j].0,
                        ),
            decreases entries.len() - i,
        {
            let key: CounterKey = key_from(&entries[i].0);
            let value: i64 = entries[i].1;
            let ghost held = deltas@;
            map_insert(&mut self.counters, key.tuple(), 0);
            if value > 0 {
                proof {
                    assert forall|a: int| 0 <= a < held.len() implies (#[trigger] held[a]).0@
                        != key@ by {
                        assert(came_from(held[a], entries@, i as int));
                        let e = choose|e: int|
                            0 <= e < i && tuple_facts((#[trigger] entries@[e]).0) == held[a].0@
                                && entries@[e].1 == held[a].1;
                        assert(tuple_facts(entries@[e].0) != tuple_facts(entries@[i as int].0));
                    }
                }
                deltas.push((key, value));
                assert(deltas@[held.len() as int].0@ == tuple_facts(entries@[i as int].0));
            }
            proof {
                assert forall|j: int| 0 <= j < deltas@.len() implies came_from(
                    #[trigger] deltas@[j],
                    entries@,
                    i + 1,
                ) by {
                    if j < held.len() {
                        assert(deltas@[j] == held[j]);
                        assert(came_from(held[j], entries@, i as int));
                    } else {
                        assert(tuple_facts(entries@[i as int].0) == deltas@[j].0@);
                    }
                }
                assert forall|j: int| 0 <= j < i + 1 && (#[trigger] entries@[j]).1 > 0 implies exists|
                    d: int,
                |
                    0 <= d < deltas@.len() && (#[trigger] deltas@[d]).0@ == tuple_facts(
                        entries@[j].0,
                    ) by {
                    if j < i {
                        let d = choose|d: int|
                            0 <= d < held.len() && (#[trigger] held[d]).0@ == tuple_facts(
                                entries@[j].0,
                            );
                        assert(deltas@[d] == held[d]);
                    }
                }
            }
            i += 1;
        }
        proof {
            let facts = delta_facts(deltas@);
            assert forall|k: int| 0 <= k < facts.len() implies before.contains_key(
                (#[trigger] facts[k]).0,
            ) && before[facts[k].0] == facts[k].1 && facts[k].1 > 0 by {
                assert(came_from(deltas@[k], entries@, i as int));
            }
            assert forall|a: int, b: int| 0 <= a < b < facts.len() implies (#[trigger] facts[a]).0
                != (#[trigger] facts[b]).0 by {
                assert(deltas@[a].0@ != deltas@[b].0@);
            }
            assert forall|k: KeyFacts| #[trigger]
                before.contains_key(k) && before[k] > 0 implies exists|d: int|
                0 <= d < facts.len() && (#[trigger] facts[d]).0 == k by {
                let e = choose|e: int|
                    0 <= e < entries@.len() && tuple_facts((#[trigger] entries@[e]).0) == k;
                let d = choose|d: int|
                    0 <= d < deltas@.len() && (#[trigger] deltas@[d]).0@ == tuple_facts(
                        entries@[e].0,
                    );
                assert(facts[d].0 == k);
            }
            assert forall|k: KeyFacts| self@.contains_key(k) implies self@[k] == zeroed(
                before,
            )[k] by {
                let e = choose|e: int|
                    0 <= e < entries@.len() && tuple_facts((#[trigger] entries@[e]).0) == k;
                assert(self@[tuple_facts(entries@[e].0)] == 0);
            }
            assert(self@ =~= zeroed(before));
        }
        deltas
    }

    /// Re-add deltas back to counters (on flush failure).
    pub fn restore_deltas(&mut self, deltas: &Vec<(CounterKey, i64)>)
        ensures
            final(self)@ == plus_all(old(self)@, delta_facts(deltas@)),
    {
        let ghost all = delta_facts(deltas@);
        let ghost before = self@;
        let mut i: usize = 0;
        assert(all.take(0) =~= Seq::empty());
        while i < deltas.len()
            invariant
                i <= deltas@.len(),
                all == delta_facts(deltas@),
                self@ == plus_all(before, all.take(i as int)),
            decreases deltas.len() - i,
        {
            proof {
                let cut = all.take(i + 1);
                assert(cut.last() == all[i as int]);
                assert(cut.drop_last() =~= all.take(i as int));
            }
            self.add_amount(&deltas[i].0, deltas[i].1);
            i += 1;
        }
        assert(all.take(i as int) =~= all);
    }
}

/// Whether a delta is one of the first `n` entries.
spec fn came_from(delta: (CounterKey, i64), entries: Seq<(CounterTuple, i64)>, n: int) -> bool {
    delta.1 > 0 && exists|e: int|
        0 <= e < n && tuple_facts((#[trigger] entries[e]).0) == delta.0@ && entries[e].1 == delta.1
}

/// Whether an entity's spending on a day is below a limit.
pub open spec fn within_budget(
    totals: Map<KeyFacts, i64>,
    entity_type: Seq<char>,
    entity_id: u128,
    period_type: Seq<char>,
    limit_micro_cents: i64,
    today: Day,
) -> bool {
    let key = key_on(entity_type, entity_id, period_type, today);
    start_of(period_type, today) is Some && totals.contains_key(key) ==> totals[key]
        < limit_micro_cents
}

proof fn lemma_plus_all(totals: Map<KeyFacts, i64>, deltas: Seq<(KeyFacts, i64)>, k: KeyFacts)
    requires
        forall|i: int, j: int|
            0 <= i < j < deltas.len() ==> (#[trigger] deltas[i]).0 != (#[trigger] deltas[j]).0,
    ensures
        ({
            let r = plus_all(totals, deltas);
            &&& (exists|i: int| 0 <= i < deltas.len() && (#[trigger] deltas[i]).0 == k) ==> (exists|
                i: int,
            |
                0 <= i < deltas.len() && (#[trigger] deltas[i]).0 == k && r.contains_key(k)
                    && r[k] == total(totals, k).wrapping_add(deltas[i].1))
            &&& !(exists|i: int| 0 <= i < deltas.len() && (#[trigger] deltas[i]).0 == k) ==> (
            r.contains_key(k) == totals.contains_key(k) && total(r, k) == total(totals, k))
        }),
    decreases deltas.len(),
{
    if deltas.len() > 0 {
        let shorter = deltas.drop_last();
        let n = deltas.len() - 1;
        assert forall|i: int, j: int| 0 <= i < j < shorter.len() implies (#[trigger] shorter[i]).0
            != (#[trigger] shorter[j]).0 by {
            assert(deltas[i].0 != deltas[j].0);
        }
        lemma_plus_all(totals, shorter, k);
        let r = plus_all(totals, deltas);
        if deltas[n].0 == k {
            assert forall|i: int| 0 <= i < shorter.len() implies (#[trigger] shorter[i]).0 != k by {
                assert(deltas[i].0 != deltas[n].0);
            }
            assert(r[k] == total(totals, k).wrapping_add(deltas[n].1));
        } else {
            if exists|i: int| 0 <= i < deltas.len() && (#[trigger] deltas[i]).0 == k {
                let i = choose|i: int| 0 <= i < deltas.len() && (#[trigger] deltas[i]).0 == k;
                assert(shorter[i].0 == k);
                let j = choose|j: int|
                    0 <= j < shorter.len() && (#[trigger] shorter[j]).0 == k && plus_all(
                        totals,
                        shorter,
                    )[k] == total(totals, k).wrapping_add(shorter[j].1);
                assert(deltas[j].0 == k);
            } else {
                assert forall|i: int| 0 <= i < shorter.len() implies (#[trigger] shorter[i]).0
                    != k by {
                    assert(deltas[i].0 != k);
                }
            }
        }
    }
}

proof fn lemma_restored(totals: Map<KeyFacts, i64>, deltas: Seq<(KeyFacts, i64)>, k: KeyFacts)
    requires
        positive_totals(deltas, totals),
        forall|k: KeyFacts| #[trigger] totals.contains_key(k) ==> totals[k] >= 0,
    ensures
        ({
            let r = plus_all(zeroed(totals), deltas);
            r.contains_key(k) == totals.contains_key(k) && (totals.contains_key(k) ==> r[k]
                == totals[k])
        }),
{
    let z = zeroed(totals);
    let r = plus_all(z, deltas);
    lemma_plus_all(z, deltas, k);
    if exists|i: int| 0 <= i < deltas.len() && (#[trigger] deltas[i]).0 == k {
        let i = choose|i: int|
            0 <= i < deltas.len() && (#[trigger] deltas[i]).0 == k && r[k] == total(
                z,
                k,
            ).wrapping_add(deltas[i].1);
        assert(totals[k] == deltas[i].1);
    } else if totals.contains_key(k) {
        assert(totals[k] == 0);
    }
}

/// A flush that failed loses no spending: snapshot, reset and restore leave
/// the counters as they were, where none is negative.
pub proof fn failed_flush_loses_nothing(
    totals: Map<KeyFacts, i64>,
    deltas: Seq<(KeyFacts, i64)>,
)
    requires
        positive_totals(deltas, totals),
        forall|k: KeyFacts| #[trigger] totals.contains_key(k) ==> totals[k] >= 0,
    ensures
        plus_all(zeroed(totals), deltas) == totals,
{
    let r = plus_all(zeroed(totals), deltas);
    assert forall|k: KeyFacts| #[trigger] r.dom().contains(k) == totals.dom().contains(k) by {
        lemma_restored(totals, deltas, k);
    }
    assert forall|k: KeyFacts| totals.dom().contains(k) implies #[trigger] r[k] == totals[k] by {
        lemma_restored(totals, deltas, k);
    }
    assert(r.dom() =~= totals.dom());
    assert(r =~= totals);
}

/// Spending recorded under one key is found under that key and no other.
pub proof fn spending_is_kept_apart(
    totals: Map<KeyFacts, i64>,
    key: KeyFacts,
    amount: i64,
    other: KeyFacts,
)
    requires
        other != key,
    ensures
        total(plus(totals, key, amount), key) == total(totals, key).wrapping_add(amount),
        total(plus(totals, key, amount), other) == total(totals, other),
{
}

} // verus!
