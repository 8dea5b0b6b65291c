//! Batched writing of usage: when a batch is due, and what becomes of one
//! that could not be written.

use crate::billing::counters::{
    delta_facts, failed_flush_loses_nothing, plus_all, positive_totals, zeroed, CounterKey,
    KeyFacts, SpendingCounters,
};
use vstd::prelude::*;

verus! {

/// A single usage event to be flushed to the database.
#[derive(Debug)]
pub struct UsageEvent {
    pub user_id: Option<u128>,
    pub project_id: u128,
    pub pipe_id: Option<u128>,
    pub token_id: Option<u128>,
    pub provider: String,
    pub model: String,
    pub input_tokens: i32,
    pub output_tokens: i32,
    /// In 10^-12 cents.
    pub cost: i128,
    pub is_streaming: bool,
    pub status_code: Option<i32>,
    pub request_id: Option<String>,
    pub is_priced: bool,
}

/// How many pending events are flushed without waiting for the next tick.
pub const LARGE_BATCH: usize = 1000;

/// Events and counter deltas to write.
#[derive(Debug)]
pub struct FlushJob {
    pub events: Vec<UsageEvent>,
    pub deltas: Vec<(CounterKey, i64)>,
}

/// The events that wait to be written.
pub struct UsageFlusher {
    pending: Vec<UsageEvent>,
}

impl View for UsageFlusher {
    type V = Seq<UsageEvent>;

    closed spec fn view(&self) -> Seq<UsageEvent> {
        self.pending@
    }
}

/// Whether `r` is due when an event arrives, and what waits then.
pub open spec fn batch_fits(
    pending: Seq<UsageEvent>,
    event: UsageEvent,
    totals: Map<KeyFacts, i64>,
    r: Option<FlushJob>,
    left: Seq<UsageEvent>,
    totals_left: Map<KeyFacts, i64>,
) -> bool {
    match r {
        Some(job) => {
            &&& pending.len() + 1 >= LARGE_BATCH
            &&& job.events@ == pending.push(event)
            &&& positive_totals(delta_facts(job.deltas@), totals)
            &&& left.len() == 0
            &&& totals_left == zeroed(totals)
        },
        None => {
            &&& pending.len() + 1 < LARGE_BATCH
            &&& left == pending.push(event)
            &&& totals_left == totals
        },
    }
}

/// Whether `r` is due when the interval is over, and what waits then.
pub open spec fn tick_fits(
    pending: Seq<UsageEvent>,
    arrived: Seq<UsageEvent>,
    totals: Map<KeyFacts, i64>,
    r: Option<FlushJob>,
    left: Seq<UsageEvent>,
    totals_left: Map<KeyFacts, i64>,
) -> bool {
    &&& left.len() == 0
    &&& totals_left == zeroed(totals)
    &&& match r {
        Some(job) => {
            &&& job.events@ == pending + arrived
            &&& positive_totals(delta_facts(job.deltas@), totals)
            &&& job.events@.len() > 0 || job.deltas@.len() > 0
        },
        None => {
            &&& pending.len() == 0
            &&& arrived.len() == 0
            &&& positive_totals(Seq::empty(), totals)
        },
    }
}

/// Whether `r` is due when no event will come, and what waits then.
pub open spec fn close_fits(
    pending: Seq<UsageEvent>,
    totals: Map<KeyFacts, i64>,
    r: Option<FlushJob>,
    left: Seq<UsageEvent>,
    totals_left: Map<KeyFacts, i64>,
) -> bool {
    &&& left.len() == 0
    &&& match r {
        Some(job) => {
            &&& pending.len() > 0
            &&& job.events@ == pending
            &&& positive_totals(delta_facts(job.deltas@), totals)
            &&& totals_left == zeroed(totals)
        },
        None => pending.len() == 0 && totals_left == totals,
    }
}

impl UsageFlusher {
    /// A flusher without events.
    pub fn new() -> (r: Self)
        ensures
            r@.len() == 0,
    {
        UsageFlusher { pending: Vec::new() }
    }

    fn take_all(&mut self, counters: &mut SpendingCounters) -> (job: FlushJob)
        ensures
            final(self)@.len() == 0,
            job.events@ == old(self)@,
            positive_totals(delta_facts(job.deltas@), old(counters)@),
            final(counters)@ == zeroed(old(counters)@),
    {
        let mut events: Vec<UsageEvent> = Vec::new();
        events.append(&mut self.pending);
        let deltas: Vec<(CounterKey, i64)> = counters.snapshot_and_reset();
        FlushJob { events, deltas }
    }

    /// An event arrives. From a large batch on, all that is pending is due.
    pub fn on_event(&mut self, event: UsageEvent, counters: &mut SpendingCounters) -> (r: Option<
        FlushJob,
    >)
        ensures
            batch_fits(old(self)@, event, old(counters)@, r, final(self)@, final(counters)@),
    {
        self.pending.push(event);
        if self.pending.len() >= LARGE_BATCH {
            Some(self.take_all(counters))
        } else {
            None
        }
    }

    /// The interval is over, and these events had arrived since: all that is
    /// pending is due, and the counter deltas even without events. Nothing is
    /// due where there is neither.
    pub fn on_tick(&mut self, arrived: Vec<UsageEvent>, counters: &mut SpendingCounters) -> (r: Option<
        FlushJob,
    >)
        ensures
            tick_fits(
                old(self)@,
                arrived@,
                old(counters)@,
                r,
                final(self)@,
                final(counters)@,
            ),
    {
        let mut arrived: Vec<UsageEvent> = arrived;
        self.pending.append(&mut arrived);
        let job: FlushJob = self.take_all(counters);
        if job.events.len() == 0 && job.deltas.len() == 0 {
            assert(delta_facts(job.deltas@) =~= Seq::empty());
            None
        } else {
            Some(job)
        }
    }

    /// No event will come: what is pending is due.
    pub fn on_close(&mut self, counters: &mut SpendingCounters) -> (r: Option<FlushJob>)
        ensures
            close_fits(old(self)@, old(counters)@, r, final(self)@, final(counters)@),
    {
        if self.pending.len() == 0 {
            None
        } else {
            Some(self.take_all(counters))
        }
    }

    /// A job could not be written: its deltas go back into the counters, its
    /// events behind those that are pending.
    pub fn on_failure(&mut self, job: FlushJob, counters: &mut SpendingCounters)
        ensures
            final(self)@ == old(self)@ + job.events@,
            final(counters)@ == plus_all(old(counters)@, delta_facts(job.deltas@)),
    {
        let mut events: Vec<UsageEvent> = job.events;
        counters.restore_deltas(&job.deltas);
        self.pending.append(&mut events);
    }
}

/// A flush that failed loses nothing: with all that was pending in the job,
/// failing leaves events and counters as they were before the job was taken,
/// where no counter is negative.
pub proof fn failed_job_is_undone(
    pending: Seq<UsageEvent>,
    totals: Map<KeyFacts, i64>,
    job_events: Seq<UsageEvent>,
    deltas: Seq<(KeyFacts, i64)>,
)
    requires
        job_events == pending,
        positive_totals(deltas, totals),
        forall|k: KeyFacts| #[trigger] totals.contains_key(k) ==> totals[k] >= 0,
    ensures
        Seq::<UsageEvent>::empty() + job_events == pending,
        plus_all(zeroed(totals), deltas) == totals,
{
    failed_flush_loses_nothing(totals, deltas);
    assert(Seq::<UsageEvent>::empty() + job_events =~= pending);
}

/// The events of a job, none where nothing is due.
pub open spec fn events_of(r: Option<FlushJob>) -> Seq<UsageEvent> {
    match r {
        Some(job) => job.events@,
        None => Seq::empty(),
    }
}

/// No event is lost or written twice: what is due and what waits are together
/// what had waited and what came, in order. Never do a thousand events wait.
pub proof fn events_are_written_once(
    pending: Seq<UsageEvent>,
    event: UsageEvent,
    totals: Map<KeyFacts, i64>,
    r: Option<FlushJob>,
    left: Seq<UsageEvent>,
    totals_left: Map<KeyFacts, i64>,
)
    requires
        batch_fits(pending, event, totals, r, left, totals_left),
    ensures
        events_of(r) + left == pending.push(event),
        left.len() < 1000,
        pending.len() < 999 ==> r is None && totals_left == totals,
        pending.len() >= 999 ==> r is Some && left.len() == 0,
{
    assert(events_of(r) + left =~= pending.push(event));
}

/// When the interval is over, and when no event will come, nothing waits any
/// longer, and what had waited is due.
pub proof fn nothing_waits_beyond_the_interval(
    pending: Seq<UsageEvent>,
    arrived: Seq<UsageEvent>,
    totals: Map<KeyFacts, i64>,
    tick: Option<FlushJob>,
    left: Seq<UsageEvent>,
    totals_left: Map<KeyFacts, i64>,
    close: Option<FlushJob>,
    left_at_close: Seq<UsageEvent>,
    totals_at_close: Map<KeyFacts, i64>,
)
    requires
        tick_fits(pending, arrived, totals, tick, left, totals_left),
        close_fits(pending, totals, close, left_at_close, totals_at_close),
    ensures
        events_of(tick) == pending + arrived,
        left.len() == 0,
        events_of(close) == pending,
        left_at_close.len() == 0,
        pending.len() == 0 ==> close is None && totals_at_close == totals,
        pending.len() > 0 ==> tick is Some && close is Some,
        tick is Some && pending.len() + arrived.len() == 0 ==> tick->0.deltas@.len() > 0,
{
    assert(events_of(tick) =~= pending + arrived);
    assert(events_of(close) =~= pending);
}

} // verus!
