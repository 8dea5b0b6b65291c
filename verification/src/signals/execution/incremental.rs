//! Incremental loop detection.
//!
//! [`ToolCallState`] is fed one tool call at a time and holds just enough to
//! report the loops seen so far, in constant work per call.
//!
//! Retries and parameter drift are exact: they agree with the detector that
//! scans the whole conversation (see [`incremental_matches_batch`]), but that
//! arguments are told apart by their text here, and by their value there.
//! Oscillation is tracked for one candidate segment per period, which agrees
//! on a trace with a single active period but may differ where several
//! periods overlap.

use crate::signals::analyzer::{Row, ShareGptMessage};
use crate::signals::execution::loops::{
    alike, call_in, calls_in, copy_oscillation, count_distinct, deduplicate_patterns,
    deduplicated, drift_fact, drift_facts, drift_signal, drifts_of, is_drift, lemma_runs_shape,
    oscillation_signals, oscillations_view, parse_tool_call, render_oscillations, retries_from,
    retries_of, retry_fact, retry_facts, retry_signal, retry_within, runs, same_args, same_until,
    variations, CallFacts, Oscillation, OscillationFacts, ToolCall, MAX_OSC_PATTERN_LEN,
    OSCILLATION_CYCLES_THRESHOLD, PARAMETER_DRIFT_THRESHOLD, RETRY_THRESHOLD,
};
use crate::signals::schemas::{
    clone_signals, extend_signals, group_of, lemma_signals_push, make_group, signals_view,
    GroupFacts, SignalFacts, SignalGroup, SignalInstance,
};
use crate::signals::text_processing::distinct;
use crate::text::{clone_texts, holds_text, lemma_texts_push, same_text, texts};
use vstd::prelude::*;

verus! {

// ---------------------------------------------------------------------------
// Model
// ---------------------------------------------------------------------------

/// The run of calls of one tool that is still open, and within it the run of
/// calls with identical arguments that is still open.
pub struct RunFacts {
    pub tool: Seq<char>,
    pub start: nat,
    pub end: nat,
    pub len: nat,
    pub unique_args: Seq<Seq<char>>,
    pub ident_args: Seq<char>,
    pub ident_start: nat,
    pub ident_end: nat,
    pub ident_len: nat,
    /// Whether a run of identical calls inside has already been a retry.
    pub overlaps_retry: bool,
}

/// The open segment in which every call has the name of the call `period`
/// places before.
pub struct LagFacts {
    pub period: nat,
    pub pattern: Seq<Seq<char>>,
    pub seg_start: nat,
    pub run_len: nat,
    pub last_full_cycle_end: nat,
    pub seed_ok: bool,
}

/// What a [`ToolCallState`] holds.
pub struct StateFacts {
    pub recent: Seq<(nat, Seq<char>)>,
    pub current: Option<RunFacts>,
    pub lag2: Option<LagFacts>,
    pub lag3: Option<LagFacts>,
    pub lag4: Option<LagFacts>,
    pub lag5: Option<LagFacts>,
    pub closed_retry: Seq<SignalFacts>,
    pub closed_drift: Seq<SignalFacts>,
    pub closed_osc: Seq<OscillationFacts>,
}

/// The state before any call.
pub open spec fn initial_state() -> StateFacts {
    StateFacts {
        recent: Seq::empty(),
        current: None,
        lag2: None,
        lag3: None,
        lag4: None,
        lag5: None,
        closed_retry: Seq::empty(),
        closed_drift: Seq::empty(),
        closed_osc: Seq::empty(),
    }
}

/// `s` followed by `x` where the condition holds.
pub open spec fn push_if<T>(s: Seq<T>, cond: bool, x: T) -> Seq<T> {
    if cond { s.push(x) } else { s }
}

impl RunFacts {
    /// A run of one call.
    pub open spec fn started(c: CallFacts) -> RunFacts {
        RunFacts {
            tool: c.name,
            start: c.index,
            end: c.index,
            len: 1,
            unique_args: seq![c.args],
            ident_args: c.args,
            ident_start: c.index,
            ident_end: c.index,
            ident_len: 1,
            overlaps_retry: false,
        }
    }

    /// Whether the open run of identical calls is a retry.
    pub open spec fn ident_is_retry(self) -> bool {
        self.ident_len >= RETRY_THRESHOLD
    }

    /// The signal of the open run of identical calls.
    pub open spec fn retry(self) -> SignalFacts {
        retry_fact(self.ident_start, self.ident_end, self.tool, self.ident_len)
    }

    /// Whether the run is a drift as it stands.
    pub open spec fn is_drift(self) -> bool {
        &&& self.len >= PARAMETER_DRIFT_THRESHOLD
        &&& self.unique_args.len() >= 2
        &&& !self.overlaps_retry
        &&& !self.ident_is_retry()
    }

    /// The signal of the run as a drift.
    pub open spec fn drift(self) -> SignalFacts {
        drift_fact(self.start, self.end, self.tool, self.unique_args.len(), self.len)
    }

    /// The run one call longer.
    pub open spec fn extended(self, c: CallFacts) -> RunFacts {
        let same_args = c.args == self.ident_args;
        RunFacts {
            tool: self.tool,
            start: self.start,
            end: c.index,
            len: self.len + 1,
            unique_args: push_if(self.unique_args, !self.unique_args.contains(c.args), c.args),
            ident_args: c.args,
            ident_start: if same_args { self.ident_start } else { c.index },
            ident_end: c.index,
            ident_len: if same_args { self.ident_len + 1 } else { 1 },
            overlaps_retry: self.overlaps_retry || (!same_args && self.ident_is_retry()),
        }
    }
}

impl LagFacts {
    /// Whether the segment is an oscillation as it stands.
    pub open spec fn qualifies(self) -> bool {
        self.seed_ok && self.run_len / self.period >= OSCILLATION_CYCLES_THRESHOLD
    }

    /// The segment as an oscillation.
    pub open spec fn oscillation(self) -> OscillationFacts {
        OscillationFacts {
            start: self.seg_start,
            end: self.last_full_cycle_end,
            names: self.pattern,
            cycles: self.run_len / self.period,
        }
    }
}

/// Whether the call has the name of the call `period` places before.
pub open spec fn lag_matches(recent: Seq<(nat, Seq<char>)>, c: CallFacts, period: nat) -> bool {
    recent.len() >= period && recent[recent.len() - period].1 == c.name
}

/// The segment that starts with the `period - 1` calls before `c` and `c`.
pub open spec fn lag_seeded(
    recent: Seq<(nat, Seq<char>)>,
    c: CallFacts,
    period: nat,
) -> LagFacts {
    let first = recent.len() - (period - 1);
    let pattern = Seq::new((period - 1) as nat, |i: int| recent[first + i].1).push(c.name);
    LagFacts {
        period,
        pattern,
        seg_start: recent[first].0,
        run_len: period,
        last_full_cycle_end: c.index,
        seed_ok: distinct(pattern).len() >= 2,
    }
}

/// The segment of a period after the call `c`.
pub open spec fn lag_step(
    t: Option<LagFacts>,
    recent: Seq<(nat, Seq<char>)>,
    c: CallFacts,
    period: nat,
) -> Option<LagFacts> {
    if lag_matches(recent, c, period) {
        match t {
            Some(t) => Some(
                LagFacts {
                    run_len: t.run_len + 1,
                    last_full_cycle_end: if (t.run_len + 1) % period == 0 {
                        c.index
                    } else {
                        t.last_full_cycle_end
                    },
                    ..t
                },
            ),
            None => None,
        }
    } else if recent.len() + 1 >= period {
        Some(lag_seeded(recent, c, period))
    } else {
        None
    }
}

/// The oscillation that the call `c` ends, if it ends one.
pub open spec fn lag_closed(
    t: Option<LagFacts>,
    recent: Seq<(nat, Seq<char>)>,
    c: CallFacts,
    period: nat,
) -> Seq<OscillationFacts> {
    match t {
        Some(t) if !lag_matches(recent, c, period) && t.qualifies() => seq![t.oscillation()],
        _ => Seq::empty(),
    }
}

/// The state after one more call.
pub open spec fn state_after(st: StateFacts, c: CallFacts) -> StateFacts {
    let continues = match st.current {
        Some(run) => run.tool == c.name,
        None => false,
    };
    let longer = st.recent.push((c.index, c.name));
    StateFacts {
        recent: if longer.len() > MAX_OSC_PATTERN_LEN { longer.skip(1) } else { longer },
        current: if continues {
            Some(st.current->0.extended(c))
        } else {
            Some(RunFacts::started(c))
        },
        lag2: lag_step(st.lag2, st.recent, c, 2),
        lag3: lag_step(st.lag3, st.recent, c, 3),
        lag4: lag_step(st.lag4, st.recent, c, 4),
        lag5: lag_step(st.lag5, st.recent, c, 5),
        closed_retry: match st.current {
            Some(run) => push_if(
                st.closed_retry,
                run.ident_is_retry() && !(continues && c.args == run.ident_args),
                run.retry(),
            ),
            None => st.closed_retry,
        },
        closed_drift: match st.current {
            Some(run) => push_if(st.closed_drift, !continues && run.is_drift(), run.drift()),
            None => st.closed_drift,
        },
        closed_osc: st.closed_osc + lag_closed(st.lag2, st.recent, c, 2) + lag_closed(
            st.lag3,
            st.recent,
            c,
            3,
        ) + lag_closed(st.lag4, st.recent, c, 4) + lag_closed(st.lag5, st.recent, c, 5),
    }
}

/// The shortest open oscillation.
pub open spec fn open_oscillation(st: StateFacts) -> Seq<OscillationFacts> {
    if st.lag2 is Some && st.lag2->0.qualifies() {
        seq![st.lag2->0.oscillation()]
    } else if st.lag3 is Some && st.lag3->0.qualifies() {
        seq![st.lag3->0.oscillation()]
    } else if st.lag4 is Some && st.lag4->0.qualifies() {
        seq![st.lag4->0.oscillation()]
    } else if st.lag5 is Some && st.lag5->0.qualifies() {
        seq![st.lag5->0.oscillation()]
    } else {
        Seq::empty()
    }
}

/// The retries of a state, closed ones first.
pub open spec fn state_retries(st: StateFacts) -> Seq<SignalFacts> {
    match st.current {
        Some(run) => push_if(st.closed_retry, run.ident_is_retry(), run.retry()),
        None => st.closed_retry,
    }
}

/// The drifts of a state, closed ones first.
pub open spec fn state_drifts(st: StateFacts) -> Seq<SignalFacts> {
    match st.current {
        Some(run) => push_if(st.closed_drift, run.is_drift(), run.drift()),
        None => st.closed_drift,
    }
}

/// The oscillations of a state.
pub open spec fn state_oscillations(st: StateFacts) -> Seq<OscillationFacts> {
    deduplicated(st.closed_osc + open_oscillation(st))
}

/// The "loops" group of a state.
pub open spec fn state_group(st: StateFacts) -> GroupFacts {
    group_of(
        "loops"@,
        state_retries(st) + state_drifts(st) + oscillation_signals(state_oscillations(st)),
    )
}

/// The state fed with the given calls, from the start.
pub open spec fn fed(calls: Seq<CallFacts>) -> StateFacts
    decreases calls.len(),
{
    if calls.len() == 0 {
        initial_state()
    } else {
        state_after(fed(calls.drop_last()), calls.last())
    }
}

impl StateFacts {
    /// Whether the counters of the state can still grow by one.
    pub open spec fn has_room(self) -> bool {
        &&& self.current is Some ==> self.current->0.len < usize::MAX
            && self.current->0.ident_len < usize::MAX
        &&& self.lag2 is Some ==> self.lag2->0.run_len < usize::MAX
        &&& self.lag3 is Some ==> self.lag3->0.run_len < usize::MAX
        &&& self.lag4 is Some ==> self.lag4->0.run_len < usize::MAX
        &&& self.lag5 is Some ==> self.lag5->0.run_len < usize::MAX
    }
}

// ---------------------------------------------------------------------------
// State
// ---------------------------------------------------------------------------

#[derive(Debug)]
struct SameToolRun {
    tool: String,
    start: usize,
    end: usize,
    len: usize,
    unique_args: Vec<String>,
    ident_args: String,
    ident_start: usize,
    ident_end: usize,
    ident_len: usize,
    overlaps_retry: bool,
}

impl View for SameToolRun {
    type V = RunFacts;

    closed spec fn view(&self) -> RunFacts {
        RunFacts {
            tool: self.tool@,
            start: self.start as nat,
            end: self.end as nat,
            len: self.len as nat,
            unique_args: texts(self.unique_args@),
            ident_args: self.ident_args@,
            ident_start: self.ident_start as nat,
            ident_end: self.ident_end as nat,
            ident_len: self.ident_len as nat,
            overlaps_retry: self.overlaps_retry,
        }
    }
}

impl SameToolRun {
    fn start_new(call: &ToolCall) -> (r: Self)
        ensures
            r@ == RunFacts::started(call@),
    {
        let mut unique_args: Vec<String> = Vec::new();
        unique_args.push(call.args.clone());
        assert(texts(unique_args@) =~= seq![call@.args]);
        SameToolRun {
            tool: call.name.clone(),
            start: call.index,
            end: call.index,
            len: 1,
            unique_args,
            ident_args: call.args.clone(),
            ident_start: call.index,
            ident_end: call.index,
            ident_len: 1,
            overlaps_retry: false,
        }
    }

    fn extend(&mut self, call: &ToolCall)
        requires
            old(self)@.len < usize::MAX,
            old(self)@.ident_len < usize::MAX,
        ensures
            final(self)@ == old(self)@.extended(call@),
    {
        self.len = self.len + 1;
        self.end = call.index;
        if !holds_text(&self.unique_args, call.args.as_str()) {
            let a: String = call.args.clone();
            proof {
                lemma_texts_push(self.unique_args@, a);
            }
            self.unique_args.push(a);
        }
        if same_text(call.args.as_str(), self.ident_args.as_str()) {
            self.ident_len = self.ident_len + 1;
            self.ident_end = call.index;
        } else {
            if self.ident_len >= RETRY_THRESHOLD {
                self.overlaps_retry = true;
            }
            self.ident_args = call.args.clone();
            self.ident_start = call.index;
            self.ident_end = call.index;
            self.ident_len = 1;
        }
    }

    fn ident_qualifies(&self) -> (b: bool)
        ensures
            b == self@.ident_is_retry(),
    {
        self.ident_len >= RETRY_THRESHOLD
    }

    fn retry_signal(&self) -> (r: SignalInstance)
        ensures
            r@ == self@.retry(),
    {
        retry_signal(self.ident_start, self.ident_end, self.tool.as_str(), self.ident_len)
    }

    fn drift_qualifies(&self) -> (b: bool)
        ensures
            b == self@.is_drift(),
    {
        assert(texts(self.unique_args@).len() == self.unique_args@.len());
        self.len >= PARAMETER_DRIFT_THRESHOLD && self.unique_args.len() >= 2
            && !self.overlaps_retry && !self.ident_qualifies()
    }

    fn drift_signal(&self) -> (r: SignalInstance)
        ensures
            r@ == self@.drift(),
    {
        assert(texts(self.unique_args@).len() == self.unique_args@.len());
        drift_signal(self.start, self.end, self.tool.as_str(), self.unique_args.len(), self.len)
    }
}

#[derive(Debug)]
struct LagTracker {
    period: usize,
    pattern: Vec<String>,
    seg_start: usize,
    run_len: usize,
    last_full_cycle_end: usize,
    seed_ok: bool,
}

impl View for LagTracker {
    type V = LagFacts;

    closed spec fn view(&self) -> LagFacts {
        LagFacts {
            period: self.period as nat,
            pattern: texts(self.pattern@),
            seg_start: self.seg_start as nat,
            run_len: self.run_len as nat,
            last_full_cycle_end: self.last_full_cycle_end as nat,
            seed_ok: self.seed_ok,
        }
    }
}

spec fn run_view(r: Option<SameToolRun>) -> Option<RunFacts> {
    match r {
        Some(r) => Some(r@),
        None => None,
    }
}

spec fn lag_view(t: Option<LagTracker>) -> Option<LagFacts> {
    match t {
        Some(t) => Some(t@),
        None => None,
    }
}

spec fn recent_view(v: Seq<(usize, String)>) -> Seq<(nat, Seq<char>)> {
    Seq::new(v.len(), |i: int| (v[i].0 as nat, v[i].1@))
}

/// Incremental loop-detection state, fed one tool call at a time.
#[derive(Debug)]
pub struct ToolCallState {
    recent: Vec<(usize, String)>,
    current_run: Option<SameToolRun>,
    lag2: Option<LagTracker>,
    lag3: Option<LagTracker>,
    lag4: Option<LagTracker>,
    lag5: Option<LagTracker>,
    closed_retry: Vec<SignalInstance>,
    closed_drift: Vec<SignalInstance>,
    closed_osc: Vec<Oscillation>,
}

impl View for ToolCallState {
    type V = StateFacts;

    closed spec fn view(&self) -> StateFacts {
        StateFacts {
            recent: recent_view(self.recent@),
            current: run_view(self.current_run),
            lag2: lag_view(self.lag2),
            lag3: lag_view(self.lag3),
            lag4: lag_view(self.lag4),
            lag5: lag_view(self.lag5),
            closed_retry: signals_view(self.closed_retry@),
            closed_drift: signals_view(self.closed_drift@),
            closed_osc: oscillations_view(self.closed_osc@),
        }
    }
}

impl Default for ToolCallState {
    fn default() -> (r: Self)
        ensures
            r@ == initial_state(),
    {
        let r: ToolCallState = ToolCallState {
            recent: Vec::new(),
            current_run: None,
            lag2: None,
            lag3: None,
            lag4: None,
            lag5: None,
            closed_retry: Vec::new(),
            closed_drift: Vec::new(),
            closed_osc: Vec::new(),
        };
        proof {
            assert(r@.recent =~= Seq::empty());
            assert(r@.closed_retry =~= Seq::empty());
            assert(r@.closed_drift =~= Seq::empty());
            assert(r@.closed_osc =~= Seq::empty());
        }
        r
    }
}

/// The names of the last calls and of the new one, `period` in all.
fn seed_pattern(recent: &Vec<(usize, String)>, call: &ToolCall, period: usize) -> (r: Vec<String>)
    requires
        1 <= period <= recent.len() + 1,
    ensures
        texts(r@) == lag_seeded(recent_view(recent@), call@, period as nat).pattern,
{
    let first: usize = recent.len() - (period - 1);
    let ghost rv = recent_view(recent@);
    let mut r: Vec<String> = Vec::new();
    let mut k: usize = first;
    while k < recent.len()
        invariant
            first <= k <= recent.len(),
            first == recent.len() - (period - 1),
            period >= 1,
            rv == recent_view(recent@),
            r@.len() == k - first,
            forall|j: int| 0 <= j < k - first ==> (#[trigger] r@[j])@ == rv[first + j].1,
        decreases recent.len() - k,
    {
        assert(rv[k as int] == (recent@[k as int].0 as nat, recent@[k as int].1@));
        r.push(recent[k].1.clone());
        k += 1;
    }
    r.push(call.name.clone());
    assert(texts(r@) =~= lag_seeded(rv, call@, period as nat).pattern);
    r
}

/// Advances the segment of one period, and hands out what it ends.
fn step_lag(
    t: &mut Option<LagTracker>,
    recent: &Vec<(usize, String)>,
    call: &ToolCall,
    period: usize,
    closed: &mut Vec<Oscillation>,
)
    requires
        2 <= period <= MAX_OSC_PATTERN_LEN,
        lag_view(*old(t)) is Some ==> lag_view(*old(t))->0.period == period && lag_view(
            *old(t),
        )->0.run_len < usize::MAX,
    ensures
        lag_view(*final(t)) == lag_step(
            lag_view(*old(t)),
            recent_view(recent@),
            call@,
            period as nat,
        ),
        oscillations_view(final(closed)@) == oscillations_view(old(closed)@) + lag_closed(
            lag_view(*old(t)),
            recent_view(recent@),
            call@,
            period as nat,
        ),
{
    let n: usize = recent.len();
    let ghost rv = recent_view(recent@);
    let ghost t0 = lag_view(*t);
    let ghost before = oscillations_view(closed@);
    if n >= period {
        assert(rv[n - period] == (recent@[n - period].0 as nat, recent@[n - period].1@));
    }
    let matches: bool = n >= period && same_text(
        recent[n - period].1.as_str(),
        call.name.as_str(),
    );
    let taken: Option<LagTracker> = t.take();
    if matches {
        match taken {
            Some(mut old_t) => {
                old_t.run_len = old_t.run_len + 1;
                if old_t.run_len % period == 0 {
                    old_t.last_full_cycle_end = call.index;
                }
                *t = Some(old_t);
            },
            None => {
                *t = None;
            },
        }
        assert(oscillations_view(closed@) =~= before + Seq::<OscillationFacts>::empty());
        return;
    }
    match taken {
        Some(old_t) => {
            if old_t.seed_ok && old_t.run_len / old_t.period >= OSCILLATION_CYCLES_THRESHOLD {
                let o: Oscillation = Oscillation {
                    start: old_t.seg_start,
                    end: old_t.last_full_cycle_end,
                    names: clone_texts(&old_t.pattern),
                    cycles: old_t.run_len / old_t.period,
                };
                assert(o@ == t0->0.oscillation());
                assert(oscillations_view(closed@.push(o)) =~= before + seq![o@]);
                closed.push(o);
            } else {
                assert(oscillations_view(closed@) =~= before + Seq::<OscillationFacts>::empty());
            }
        },
        None => {
            assert(oscillations_view(closed@) =~= before + Seq::<OscillationFacts>::empty());
        },
    }
    if n >= period - 1 {
        let pattern: Vec<String> = seed_pattern(recent, call, period);
        let first: usize = n - (period - 1);
        assert(rv[first as int] == (recent@[first as int].0 as nat, recent@[first as int].1@));
        let seed_ok: bool = count_distinct(&pattern) >= 2;
        *t = Some(
            LagTracker {
                period,
                pattern,
                seg_start: recent[first].0,
                run_len: period,
                last_full_cycle_end: call.index,
                seed_ok,
            },
        );
    }
}

/// Whether the lag facts of a state carry their own periods.
pub open spec fn periods_fit(st: StateFacts) -> bool {
    &&& st.lag2 is Some ==> st.lag2->0.period == 2
    &&& st.lag3 is Some ==> st.lag3->0.period == 3
    &&& st.lag4 is Some ==> st.lag4->0.period == 4
    &&& st.lag5 is Some ==> st.lag5->0.period == 5
    &&& st.recent.len() <= MAX_OSC_PATTERN_LEN
}

fn open_segment(t: &Option<LagTracker>, found: &mut Vec<Oscillation>) -> (b: bool)
    requires
        lag_view(*t) is Some ==> lag_view(*t)->0.period > 0,
    ensures
        b == (lag_view(*t) is Some && lag_view(*t)->0.qualifies()),
        b ==> oscillations_view(final(found)@) == oscillations_view(old(found)@).push(
            lag_view(*t)->0.oscillation(),
        ),
        !b ==> oscillations_view(final(found)@) == oscillations_view(old(found)@),
{
    if let Some(tr) = t {
        if tr.seed_ok && tr.run_len / tr.period >= OSCILLATION_CYCLES_THRESHOLD {
            let o: Oscillation = Oscillation {
                start: tr.seg_start,
                end: tr.last_full_cycle_end,
                names: clone_texts(&tr.pattern),
                cycles: tr.run_len / tr.period,
            };
            assert(o@ == tr@.oscillation());
            assert(oscillations_view(found@.push(o)) =~= oscillations_view(found@).push(o@));
            found.push(o);
            return true;
        }
    }
    false
}

impl ToolCallState {
    /// Feed one parsed tool call into the state.
    fn push(&mut self, call: &ToolCall)
        requires
            old(self)@.has_room(),
            periods_fit(old(self)@),
        ensures
            final(self)@ == state_after(old(self)@, call@),
            periods_fit(final(self)@),
    {
        let ghost before = self@;
        self.step_same_tool_run(call);
        step_lag(&mut self.lag2, &self.recent, call, 2, &mut self.closed_osc);
        step_lag(&mut self.lag3, &self.recent, call, 3, &mut self.closed_osc);
        step_lag(&mut self.lag4, &self.recent, call, 4, &mut self.closed_osc);
        step_lag(&mut self.lag5, &self.recent, call, 5, &mut self.closed_osc);
        let entry: (usize, String) = (call.index, call.name.clone());
        assert(recent_view(self.recent@.push(entry)) =~= before.recent.push(
            (call@.index, call@.name),
        ));
        self.recent.push(entry);
        assert(recent_view(self.recent@).len() == self.recent@.len());
        if self.recent.len() > MAX_OSC_PATTERN_LEN {
            let ghost longer = self.recent@;
            self.recent.remove(0);
            assert(recent_view(self.recent@) =~= recent_view(longer).skip(1));
        }
    }

    fn step_same_tool_run(&mut self, call: &ToolCall)
        requires
            old(self)@.has_room(),
        ensures
            final(self)@ == (StateFacts {
                recent: old(self)@.recent,
                lag2: old(self)@.lag2,
                lag3: old(self)@.lag3,
                lag4: old(self)@.lag4,
                lag5: old(self)@.lag5,
                closed_osc: old(self)@.closed_osc,
                ..state_after(old(self)@, call@)
            }),
    {
        let taken: Option<SameToolRun> = self.current_run.take();
        match taken {
            Some(mut run) => {
                if same_text(run.tool.as_str(), call.name.as_str()) {
                    if run.ident_qualifies() && !same_text(
                        call.args.as_str(),
                        run.ident_args.as_str(),
                    ) {
                        let sig: SignalInstance = run.retry_signal();
                        proof {
                            lemma_signals_push(self.closed_retry@, sig);
                        }
                        self.closed_retry.push(sig);
                    }
                    run.extend(call);
                    self.current_run = Some(run);
                } else {
                    self.finalize_run(run);
                    self.current_run = Some(SameToolRun::start_new(call));
                }
            },
            None => {
                self.current_run = Some(SameToolRun::start_new(call));
            },
        }
    }

    fn finalize_run(&mut self, run: SameToolRun)
        ensures
            final(self)@ == (StateFacts {
                closed_retry: push_if(
                    old(self)@.closed_retry,
                    run@.ident_is_retry(),
                    run@.retry(),
                ),
                closed_drift: push_if(old(self)@.closed_drift, run@.is_drift(), run@.drift()),
                ..old(self)@
            }),
    {
        if run.ident_qualifies() {
            let sig: SignalInstance = run.retry_signal();
            proof {
                lemma_signals_push(self.closed_retry@, sig);
            }
            self.closed_retry.push(sig);
        }
        if run.drift_qualifies() {
            let sig: SignalInstance = run.drift_signal();
            proof {
                lemma_signals_push(self.closed_drift@, sig);
            }
            self.closed_drift.push(sig);
        }
    }

    /// The shortest oscillation still open, after those already closed.
    fn all_oscillations(&self) -> (r: Vec<Oscillation>)
        requires
            periods_fit(self@),
        ensures
            oscillations_view(r@) == self@.closed_osc + open_oscillation(self@),
    {
        let mut r: Vec<Oscillation> = Vec::new();
        let mut i: usize = 0;
        while i < self.closed_osc.len()
            invariant
                i <= self.closed_osc.len(),
                r@.len() == i,
                forall|j: int| 0 <= j < i ==> (#[trigger] r@[j])@ == self.closed_osc@[j]@,
            decreases self.closed_osc.len() - i,
        {
            r.push(copy_oscillation(&self.closed_osc[i]));
            i += 1;
        }
        assert(oscillations_view(r@) =~= self@.closed_osc);
        let ghost closed = oscillations_view(r@);
        let found: bool = open_segment(&self.lag2, &mut r) || open_segment(&self.lag3, &mut r)
            || open_segment(&self.lag4, &mut r) || open_segment(&self.lag5, &mut r);
        assert(oscillations_view(r@) =~= closed + open_oscillation(self@));
        r
    }

    /// Render the current "loops" `SignalGroup` from accumulated + in-progress state.
    fn current_signals(&self) -> (r: SignalGroup)
        requires
            periods_fit(self@),
        ensures
            r@ == state_group(self@),
    {
        let mut signals: Vec<SignalInstance> = clone_signals(&self.closed_retry);
        if let Some(run) = &self.current_run {
            if run.ident_qualifies() {
                let sig: SignalInstance = run.retry_signal();
                proof {
                    lemma_signals_push(signals@, sig);
                }
                signals.push(sig);
            }
        }
        let mut drifts: Vec<SignalInstance> = clone_signals(&self.closed_drift);
        if let Some(run) = &self.current_run {
            if run.drift_qualifies() {
                let sig: SignalInstance = run.drift_signal();
                proof {
                    lemma_signals_push(drifts@, sig);
                }
                drifts.push(sig);
            }
        }
        extend_signals(&mut signals, &drifts);
        let oscillations: Vec<Oscillation> = deduplicate_patterns(self.all_oscillations());
        let rendered: Vec<SignalInstance> = render_oscillations(&oscillations);
        extend_signals(&mut signals, &rendered);
        make_group("loops", signals)
    }
}

/// Incremental entry point: feed one message (only `function_call` messages
/// actually update state) and return the up-to-date "loops" `SignalGroup`.
pub fn analyze_loops_step(
    state: &mut ToolCallState,
    message_index: usize,
    msg: &ShareGptMessage<'_>,
) -> (r: SignalGroup)
    requires
        old(state)@.has_room(),
        periods_fit(old(state)@),
    ensures
        final(state)@ == (match call_in(message_index as nat, msg@) {
            Some(c) => state_after(old(state)@, c),
            None => old(state)@,
        }),
        periods_fit(final(state)@),
        r@ == state_group(final(state)@),
{
    if let Some(call) = parse_tool_call(message_index, msg) {
        state.push(&call);
    }
    state.current_signals()
}

// ---------------------------------------------------------------------------
// Agreement with the detector over whole conversations
// ---------------------------------------------------------------------------

proof fn lemma_retries_frame(prev: Seq<CallFacts>, x: CallFacts, rs: Seq<(int, int)>)
    requires
        forall|k: int| 0 <= k < rs.len() ==> 0 <= (#[trigger] rs[k]).0 < rs[k].1 <= prev.len(),
    ensures
        retries_of(prev.push(x), rs) == retries_of(prev, rs),
    decreases rs.len(),
{
    if rs.len() > 0 {
        assert(rs.last() == rs[rs.len() - 1]);
        assert forall|k: int| 0 <= k < rs.drop_last().len() implies 0 <= (
        #[trigger] rs.drop_last()[k]).0 < rs.drop_last()[k].1 <= prev.len() by {
            assert(rs.drop_last()[k] == rs[k]);
        }
        lemma_retries_frame(prev, x, rs.drop_last());
    }
}

proof fn lemma_variations_frame(prev: Seq<CallFacts>, x: CallFacts, s: int, e: int)
    requires
        0 <= s <= e <= prev.len(),
    ensures
        variations(prev.push(x), s, e) == variations(prev, s, e),
{
    assert(Seq::new((e - s) as nat, |i: int| prev.push(x)[s + i].args) =~= Seq::new(
        (e - s) as nat,
        |i: int| prev[s + i].args,
    ));
}

proof fn lemma_drifts_frame(
    prev: Seq<CallFacts>,
    x: CallFacts,
    rs: Seq<(int, int)>,
    before: Seq<(int, int)>,
    after: Seq<(int, int)>,
)
    requires
        forall|k: int| 0 <= k < rs.len() ==> 0 <= (#[trigger] rs[k]).0 < rs[k].1 <= prev.len(),
        forall|k: int|
            0 <= k < rs.len() ==> retry_within(before, (#[trigger] rs[k]).0, rs[k].1)
                == retry_within(after, rs[k].0, rs[k].1),
    ensures
        drifts_of(prev.push(x), rs, after) == drifts_of(prev, rs, before),
    decreases rs.len(),
{
    if rs.len() > 0 {
        assert(rs.last() == rs[rs.len() - 1]);
        lemma_variations_frame(prev, x, rs.last().0, rs.last().1);
        assert forall|k: int| 0 <= k < rs.drop_last().len() implies 0 <= (
        #[trigger] rs.drop_last()[k]).0 < rs.drop_last()[k].1 <= prev.len() && retry_within(
            before,
            rs.drop_last()[k].0,
            rs.drop_last()[k].1,
        ) == retry_within(after, rs.drop_last()[k].0, rs.drop_last()[k].1) by {
            assert(rs.drop_last()[k] == rs[k]);
        }
        lemma_drifts_frame(prev, x, rs.drop_last(), before, after);
    }
}

/// What the open and closed runs of a state say of the calls it was fed with.
spec fn tracks(calls: Seq<CallFacts>, st: StateFacts) -> bool {
    let n = calls.len() as int;
    let by_tool = runs(calls, false);
    let by_args = runs(calls, true);
    if n == 0 {
        &&& st.current is None
        &&& st.closed_retry == Seq::<SignalFacts>::empty()
        &&& st.closed_drift == Seq::<SignalFacts>::empty()
    } else {
        let t = by_tool.last().0;
        let a = by_args.last().0;
        &&& st.current is Some
        &&& t <= a
        &&& calls[t].name == calls[n - 1].name
        &&& calls[a].name == calls[n - 1].name
        &&& st.current->0 == (RunFacts {
            tool: calls[n - 1].name,
            start: calls[t].index,
            end: calls[n - 1].index,
            len: (n - t) as nat,
            unique_args: variations(calls, t, n),
            ident_args: calls[n - 1].args,
            ident_start: calls[a].index,
            ident_end: calls[n - 1].index,
            ident_len: (n - a) as nat,
            overlaps_retry: retry_within(by_args.drop_last(), t, n),
        })
        &&& st.closed_retry == retries_of(calls, by_args.drop_last())
        &&& st.closed_drift == drifts_of(calls, by_tool.drop_last(), by_args)
    }
}

proof fn lemma_variations_push(prev: Seq<CallFacts>, x: CallFacts, s: int)
    requires
        0 <= s <= prev.len(),
    ensures
        variations(prev.push(x), s, (prev.len() + 1) as int) == push_if(
            variations(prev, s, prev.len() as int),
            !variations(prev, s, prev.len() as int).contains(x.args),
            x.args,
        ),
{
    let n = prev.len() as int;
    let longer = Seq::new((n + 1 - s) as nat, |i: int| prev.push(x)[s + i].args);
    assert(longer.drop_last() =~= Seq::new((n - s) as nat, |i: int| prev[s + i].args));
    assert(longer.last() == x.args);
}

proof fn lemma_tracks_step(prev: Seq<CallFacts>, x: CallFacts, st: StateFacts)
    requires
        tracks(prev, st),
    ensures
        tracks(prev.push(x), state_after(st, x)),
{
    let calls = prev.push(x);
    let t_new = runs(calls, false);
    let a_new = runs(calls, true);
    assert(calls.drop_last() =~= prev);
    if prev.len() == 0 {
        assert(t_new =~= seq![(0int, 1int)]);
        assert(a_new =~= seq![(0int, 1int)]);
        assert(t_new.drop_last() =~= Seq::empty());
        assert(a_new.drop_last() =~= Seq::empty());
        lemma_variations_push(prev, x, 0);
        assert(variations(prev, 0, 0) =~= Seq::empty());
        assert(variations(calls, 0, 1) =~= seq![x.args]);
    } else {
        lemma_tracks_step_open(prev, x, st);
    }
}

proof fn lemma_tracks_step_open(prev: Seq<CallFacts>, x: CallFacts, st: StateFacts)
    requires
        tracks(prev, st),
        prev.len() > 0,
    ensures
        tracks(prev.push(x), state_after(st, x)),
{
    let calls = prev.push(x);
    let n = prev.len() as int;
    let t_old = runs(prev, false);
    let a_old = runs(prev, true);
    let t_new = runs(calls, false);
    let a_new = runs(calls, true);
    assert(calls.drop_last() =~= prev);
    lemma_runs_shape(prev, false);
    lemma_runs_shape(prev, true);
    lemma_runs_shape(calls, false);
    lemma_runs_shape(calls, true);
    let t = t_old.last().0;
    let a = a_old.last().0;
    let closed_tools = t_old.drop_last();
    assert forall|k: int| 0 <= k < closed_tools.len() implies 0 <= (#[trigger] closed_tools[k]).0
        < closed_tools[k].1 <= t by {
        assert(closed_tools[k] == t_old[k]);
    }
    assert forall|k: int| 0 <= k < a_old.drop_last().len() implies 0 <= (
    #[trigger] a_old.drop_last()[k]).0 < a_old.drop_last()[k].1 <= a by {
        assert(a_old.drop_last()[k] == a_old[k]);
    }
    // Runs that end before the open one are not affected by what comes after.
    assert forall|k: int| 0 <= k < closed_tools.len() implies retry_within(
        a_old,
        (#[trigger] closed_tools[k]).0,
        closed_tools[k].1,
    ) == retry_within(a_new, closed_tools[k].0, closed_tools[k].1) by {
        lemma_within_frame(prev, x, closed_tools[k].0, closed_tools[k].1);
    }
    lemma_drifts_frame(prev, x, closed_tools, a_old, a_new);
    lemma_variations_push(prev, x, t);
    if x.name == prev[n - 1].name {
        assert(t_new.drop_last() =~= t_old.drop_last());
        assert(t_new.last() == (t, n + 1));
        if x.args == prev[n - 1].args {
            assert(a_new.drop_last() =~= a_old.drop_last());
            assert(a_new.last() == (a, n + 1));
            lemma_retries_frame(prev, x, a_old.drop_last());
            assert(retry_within(a_new.drop_last(), t, n + 1) == retry_within(
                a_old.drop_last(),
                t,
                n,
            ));
        } else {
            assert(a_new.drop_last() =~= a_old);
            assert(a_new.last() == (n, n + 1));
            lemma_retries_frame(prev, x, a_old);
            lemma_within_last(a_old, t, n, n + 1);
        }
    } else {
        assert(t_new.drop_last() =~= t_old);
        assert(a_new.drop_last() =~= a_old);
        lemma_retries_frame(prev, x, a_old);
        lemma_within_last(a_old, t, n, n);
        lemma_variations_frame(prev, x, t, n);
        assert(retry_within(a_new, t, n) == retry_within(a_old, t, n)) by {
            if retry_within(a_new, t, n) {
                let k = choose|k: int|
                    0 <= k < a_new.len() && t <= (#[trigger] a_new[k]).0 && a_new[k].1 <= n
                        && a_new[k].1 - a_new[k].0 >= RETRY_THRESHOLD;
                assert(a_old[k] == a_new[k]);
            }
            if retry_within(a_old, t, n) {
                let k = choose|k: int|
                    0 <= k < a_old.len() && t <= (#[trigger] a_old[k]).0 && a_old[k].1 <= n
                        && a_old[k].1 - a_old[k].0 >= RETRY_THRESHOLD;
                assert(a_new[k] == a_old[k]);
            }
        }
        lemma_variations_push(prev, x, n);
        assert(variations(prev, n, n) =~= Seq::empty());
        assert(variations(calls, n, n + 1) =~= seq![x.args]);
        assert(!retry_within(a_old, n, n + 1)) by {
            if retry_within(a_old, n, n + 1) {
                let k = choose|k: int|
                    0 <= k < a_old.len() && n <= (#[trigger] a_old[k]).0 && a_old[k].1 <= n + 1
                        && a_old[k].1 - a_old[k].0 >= RETRY_THRESHOLD;
            }
        }
    }
}

/// A run of identical calls inside `s..e`, where more calls follow `e`, is the
/// same whether or not one more call is appended.
proof fn lemma_within_frame(prev: Seq<CallFacts>, x: CallFacts, s: int, e: int)
    requires
        e < prev.len(),
    ensures
        retry_within(runs(prev, true), s, e) == retry_within(runs(prev.push(x), true), s, e),
{
    let calls = prev.push(x);
    let old_runs = runs(prev, true);
    let new_runs = runs(calls, true);
    assert(calls.drop_last() =~= prev);
    lemma_runs_shape(prev, true);
    if retry_within(old_runs, s, e) {
        let k = choose|k: int|
            0 <= k < old_runs.len() && s <= (#[trigger] old_runs[k]).0 && old_runs[k].1 <= e
                && old_runs[k].1 - old_runs[k].0 >= RETRY_THRESHOLD;
        assert(k < old_runs.len() - 1);
        assert(new_runs[k] == old_runs[k]);
    }
    if retry_within(new_runs, s, e) {
        let k = choose|k: int|
            0 <= k < new_runs.len() && s <= (#[trigger] new_runs[k]).0 && new_runs[k].1 <= e
                && new_runs[k].1 - new_runs[k].0 >= RETRY_THRESHOLD;
        assert(k < old_runs.len());
        assert(new_runs[k] == old_runs[k]);
    }
}

/// A retry inside `s..e` is the last run or one before it.
proof fn lemma_within_last(rs: Seq<(int, int)>, s: int, n: int, e: int)
    requires
        rs.len() > 0,
        rs.last().1 == n,
        s <= rs.last().0,
        n <= e,
        forall|k: int| 0 <= k < rs.len() ==> (#[trigger] rs[k]).1 <= n,
    ensures
        retry_within(rs, s, e) == (retry_within(rs.drop_last(), s, n) || n - rs.last().0
            >= RETRY_THRESHOLD),
{
    let before = rs.drop_last();
    if retry_within(rs, s, e) {
        let k = choose|k: int|
            0 <= k < rs.len() && s <= (#[trigger] rs[k]).0 && rs[k].1 <= e && rs[k].1 - rs[k].0
                >= RETRY_THRESHOLD;
        if k < rs.len() - 1 {
            assert(before[k] == rs[k]);
        }
    }
    if retry_within(before, s, n) {
        let k = choose|k: int|
            0 <= k < before.len() && s <= (#[trigger] before[k]).0 && before[k].1 <= n
                && before[k].1 - before[k].0 >= RETRY_THRESHOLD;
        assert(rs[k] == before[k]);
    }
    if n - rs.last().0 >= RETRY_THRESHOLD {
        assert(rs[rs.len() - 1] == rs.last());
    }
}

proof fn lemma_tracks(calls: Seq<CallFacts>)
    ensures
        tracks(calls, fed(calls)),
    decreases calls.len(),
{
    if calls.len() > 0 {
        lemma_tracks(calls.drop_last());
        lemma_tracks_step(calls.drop_last(), calls.last(), fed(calls.drop_last()));
        assert(calls.drop_last().push(calls.last()) =~= calls);
    }
}

// ---------------------------------------------------------------------------
// Runs of the same text, and the scan for retries
// ---------------------------------------------------------------------------

/// Whether the arguments of calls of one tool are equal exactly where their
/// texts are. It fails for dictionaries that differ in the sign of a zero
/// alone: they are equal, and their texts are not.
pub open spec fn texts_tell(calls: Seq<CallFacts>) -> bool {
    forall|i: int, j: int|
        0 <= i < calls.len() && 0 <= j < calls.len() && (#[trigger] calls[i]).name == (
        #[trigger] calls[j]).name ==> (same_args(calls[i], calls[j]) <==> calls[i].args
            == calls[j].args)
}

/// The `k`-th run holds one and the same call, and the next run starts where
/// it ends, with another call.
spec fn run_fits(calls: Seq<CallFacts>, rs: Seq<(int, int)>, k: int) -> bool {
    let (s, e) = rs[k];
    &&& 0 <= s < e <= calls.len()
    &&& k + 1 < rs.len() ==> rs[k + 1].0 == e
    &&& k + 1 == rs.len() ==> e == calls.len()
    &&& e < calls.len() ==> !alike(calls[e], calls[s], true)
    &&& forall|j: int| s <= j < e ==> alike(#[trigger] calls[j], calls[s], true)
}

spec fn runs_fit(calls: Seq<CallFacts>, rs: Seq<(int, int)>) -> bool {
    &&& calls.len() > 0 <==> rs.len() > 0
    &&& rs.len() > 0 ==> rs[0].0 == 0
    &&& forall|k: int| 0 <= k < rs.len() ==> #[trigger] run_fits(calls, rs, k)
}

proof fn lemma_run_fits_step(calls: Seq<CallFacts>, k: int)
    requires
        calls.len() > 0,
        runs_fit(calls.drop_last(), runs(calls.drop_last(), true)),
        0 <= k < runs(calls.drop_last(), true).len(),
    ensures
        run_fits(calls, runs(calls, true), k),
{
    let n = calls.len() as int;
    let prev = calls.drop_last();
    let before = runs(prev, true);
    let rs = runs(calls, true);
    let (s, e) = before[k];
    assert(run_fits(prev, before, k));
    assert(prev[s] == calls[s]);
    assert forall|j: int| s <= j < e implies alike(#[trigger] calls[j], calls[s], true) by {
        assert(prev[j] == calls[j]);
    }
    if k + 1 < before.len() {
        assert(run_fits(prev, before, k + 1));
        assert(prev[e] == calls[e]);
        assert(rs[k] == (s, e));
        assert(rs[k + 1].0 == e);
    } else {
        assert(alike(calls[n - 2], calls[s], true));
        if alike(calls[n - 1], calls[n - 2], true) {
            assert(rs[k] == (s, n));
        } else {
            assert(rs[k] == (s, n - 1));
            assert(rs[k + 1] == (n - 1, n));
        }
    }
}

proof fn lemma_runs_fit(calls: Seq<CallFacts>)
    ensures
        runs_fit(calls, runs(calls, true)),
    decreases calls.len(),
{
    if calls.len() > 0 {
        let n = calls.len() as int;
        let before = runs(calls.drop_last(), true);
        let rs = runs(calls, true);
        lemma_runs_fit(calls.drop_last());
        lemma_runs_shape(calls.drop_last(), true);
        assert forall|k: int| 0 <= k < rs.len() implies #[trigger] run_fits(calls, rs, k) by {
            if k < before.len() {
                lemma_run_fits_step(calls, k);
            } else {
                assert(rs[k] == (n - 1, n));
            }
        }
    }
}

/// Within a run, the scan counts up to the end of the run.
proof fn lemma_same_until_run(calls: Seq<CallFacts>, rs: Seq<(int, int)>, k: int, i: int, j: int)
    requires
        texts_tell(calls),
        runs_fit(calls, rs),
        0 <= k < rs.len(),
        rs[k].0 <= i < j <= rs[k].1,
    ensures
        same_until(calls, i, j) == rs[k].1,
    decreases rs[k].1 - j,
{
    assert(run_fits(calls, rs, k));
    assert(alike(calls[i], calls[rs[k].0], true));
    if j < rs[k].1 {
        assert(alike(calls[j], calls[rs[k].0], true));
        lemma_same_until_run(calls, rs, k, i, j + 1);
    } else if j < calls.len() {
        assert(!alike(calls[j], calls[rs[k].0], true));
    }
}

/// The runs from the `k`-th on that are long enough for a retry.
spec fn long_from(rs: Seq<(int, int)>, k: int) -> Seq<(int, int)>
    decreases rs.len() - k,
{
    if k < 0 || k >= rs.len() {
        Seq::empty()
    } else if rs[k].1 - rs[k].0 >= RETRY_THRESHOLD {
        seq![rs[k]] + long_from(rs, k + 1)
    } else {
        long_from(rs, k + 1)
    }
}

proof fn lemma_scan_is_long_runs(calls: Seq<CallFacts>, rs: Seq<(int, int)>, k: int, i: int)
    requires
        texts_tell(calls),
        runs_fit(calls, rs),
        0 <= k < rs.len(),
        rs[k].0 <= i < rs[k].1,
        i == rs[k].0 || rs[k].1 - rs[k].0 < RETRY_THRESHOLD,
    ensures
        retries_from(calls, i) == long_from(rs, k),
    decreases calls.len() - i,
{
    let e = rs[k].1;
    assert(run_fits(calls, rs, k));
    lemma_same_until_run(calls, rs, k, i, i + 1);
    if k + 1 < rs.len() {
        assert(run_fits(calls, rs, k + 1));
        assert(rs[k + 1].0 == e);
        assert(rs[k + 1].0 < rs[k + 1].1);
        if e - i >= RETRY_THRESHOLD || e == i + 1 {
            lemma_scan_is_long_runs(calls, rs, k + 1, e);
        }
    } else {
        assert(e == calls.len());
        assert(long_from(rs, k + 1) =~= Seq::empty());
        assert(retries_from(calls, e) =~= Seq::empty());
    }
    if e - i < RETRY_THRESHOLD && i + 1 < e {
        lemma_scan_is_long_runs(calls, rs, k, i + 1);
    }
}

proof fn lemma_retries_add(calls: Seq<CallFacts>, a: Seq<(int, int)>, b: Seq<(int, int)>)
    ensures
        retries_of(calls, a + b) == retries_of(calls, a) + retries_of(calls, b),
    decreases b.len(),
{
    if b.len() == 0 {
        assert(a + b =~= a);
        assert(retries_of(calls, a) + retries_of(calls, b) =~= retries_of(calls, a));
    } else {
        lemma_retries_add(calls, a, b.drop_last());
        assert((a + b).drop_last() =~= a + b.drop_last());
        assert((a + b).last() == b.last());
        assert(retries_of(calls, a + b) =~= retries_of(calls, a) + retries_of(calls, b));
    }
}

proof fn lemma_retries_of_long(calls: Seq<CallFacts>, rs: Seq<(int, int)>, k: int)
    requires
        0 <= k <= rs.len(),
    ensures
        retries_of(calls, rs.skip(k)) == retries_of(calls, long_from(rs, k)),
    decreases rs.len() - k,
{
    if k < rs.len() {
        let one = seq![rs[k]];
        lemma_retries_of_long(calls, rs, k + 1);
        assert(rs.skip(k) =~= one + rs.skip(k + 1));
        lemma_retries_add(calls, one, rs.skip(k + 1));
        lemma_retries_add(calls, one, long_from(rs, k + 1));
        reveal_with_fuel(retries_of, 2);
        assert(one.drop_last() =~= Seq::empty());
        assert(one.last() == rs[k]);
        if rs[k].1 - rs[k].0 < RETRY_THRESHOLD {
            assert(retries_of(calls, one) =~= Seq::empty());
            assert(retries_of(calls, rs.skip(k)) =~= retries_of(calls, rs.skip(k + 1)));
        }
    } else {
        assert(rs.skip(k) =~= Seq::empty());
    }
}

proof fn lemma_long_members(rs: Seq<(int, int)>, k: int)
    requires
        0 <= k <= rs.len(),
    ensures
        forall|m: int| #![trigger long_from(rs, k)[m]]
            0 <= m < long_from(rs, k).len() ==> exists|l: int|
                k <= l < rs.len() && #[trigger] rs[l] == long_from(rs, k)[m],
        forall|l: int|
            k <= l < rs.len() && (#[trigger] rs[l]).1 - rs[l].0 >= RETRY_THRESHOLD ==> exists|m: int|
                0 <= m < long_from(rs, k).len() && #[trigger] long_from(rs, k)[m] == rs[l],
    decreases rs.len() - k,
{
    if k < rs.len() {
        lemma_long_members(rs, k + 1);
        let rest = long_from(rs, k + 1);
        let all = long_from(rs, k);
        assert forall|m: int| #![trigger all[m]] 0 <= m < all.len() implies exists|l: int|
            k <= l < rs.len() && #[trigger] rs[l] == all[m] by {
            if rs[k].1 - rs[k].0 >= RETRY_THRESHOLD {
                if m == 0 {
                    assert(rs[k] == all[m]);
                } else {
                    assert(all[m] == rest[m - 1]);
                }
            } else {
                assert(all[m] == rest[m]);
            }
        }
        assert forall|l: int|
            k <= l < rs.len() && (#[trigger] rs[l]).1 - rs[l].0 >= RETRY_THRESHOLD implies exists|m: int|
            0 <= m < all.len() && #[trigger] all[m] == rs[l] by {
            if l == k {
                assert(all[0] == rs[l]);
            } else {
                let m = choose|m: int| 0 <= m < rest.len() && #[trigger] rest[m] == rs[l];
                if rs[k].1 - rs[k].0 >= RETRY_THRESHOLD {
                    assert(all[m + 1] == rs[l]);
                } else {
                    assert(all[m] == rs[l]);
                }
            }
        }
    }
}

proof fn lemma_within_long(rs: Seq<(int, int)>, s: int, e: int)
    ensures
        retry_within(long_from(rs, 0), s, e) == retry_within(rs, s, e),
{
    lemma_long_members(rs, 0);
    let long = long_from(rs, 0);
    if retry_within(long, s, e) {
        let m = choose|m: int|
            0 <= m < long.len() && s <= (#[trigger] long[m]).0 && long[m].1 <= e && long[m].1
                - long[m].0 >= RETRY_THRESHOLD;
        let l = choose|l: int| 0 <= l < rs.len() && #[trigger] rs[l] == long[m];
        assert(retry_within(rs, s, e));
    }
    if retry_within(rs, s, e) {
        let l = choose|l: int|
            0 <= l < rs.len() && s <= (#[trigger] rs[l]).0 && rs[l].1 <= e && rs[l].1 - rs[l].0
                >= RETRY_THRESHOLD;
        let m = choose|m: int| 0 <= m < long.len() && #[trigger] long[m] == rs[l];
        assert(retry_within(long, s, e));
    }
}

proof fn lemma_drifts_of_long(calls: Seq<CallFacts>, by_tool: Seq<(int, int)>, rs: Seq<(int, int)>)
    ensures
        drifts_of(calls, by_tool, long_from(rs, 0)) == drifts_of(calls, by_tool, rs),
    decreases by_tool.len(),
{
    if by_tool.len() > 0 {
        lemma_drifts_of_long(calls, by_tool.drop_last(), rs);
        lemma_within_long(rs, by_tool.last().0, by_tool.last().1);
    }
}

proof fn lemma_fed_runs(calls: Seq<CallFacts>)
    ensures
        state_retries(fed(calls)) == retries_of(calls, runs(calls, true)),
        state_drifts(fed(calls)) == drifts_of(calls, runs(calls, false), runs(calls, true)),
{
    lemma_tracks(calls);
    lemma_runs_shape(calls, false);
    lemma_runs_shape(calls, true);
    let n = calls.len() as int;
    if n > 0 {
        let by_tool = runs(calls, false);
        let by_args = runs(calls, true);
        lemma_within_last(by_args, by_tool.last().0, n, n);
    }
}

/// Feeding calls one at a time reports exactly the retries and the parameter
/// drifts that a scan of all the calls reports, in the same order.
pub proof fn incremental_matches_batch(calls: Seq<CallFacts>)
    requires
        texts_tell(calls),
    ensures
        state_retries(fed(calls)) == retry_facts(calls),
        state_drifts(fed(calls)) == drift_facts(calls),
{
    let by_args = runs(calls, true);
    lemma_fed_runs(calls);
    lemma_runs_fit(calls);
    assert(retries_from(calls, 0) == long_from(by_args, 0)) by {
        if calls.len() > 0 {
            assert(run_fits(calls, by_args, 0));
            lemma_scan_is_long_runs(calls, by_args, 0, 0);
        } else {
            assert(by_args =~= Seq::empty());
        }
    }
    lemma_retries_of_long(calls, by_args, 0);
    assert(by_args.skip(0) =~= by_args);
    lemma_drifts_of_long(calls, runs(calls, false), by_args);
}

/// The state after message `k` of a conversation, given the state before it.
pub open spec fn state_at(st: StateFacts, k: nat, row: Row) -> StateFacts {
    match call_in(k, row) {
        Some(c) => state_after(st, c),
        None => st,
    }
}

/// The state that the first `k` messages of a conversation lead to, fed one
/// at a time with their indices.
pub open spec fn fed_messages(conv: Seq<Row>, k: int) -> StateFacts
    decreases k,
{
    if k <= 0 {
        initial_state()
    } else {
        state_at(fed_messages(conv, k - 1), (k - 1) as nat, conv[k - 1])
    }
}

proof fn lemma_fed_messages(conv: Seq<Row>, k: int)
    requires
        0 <= k <= conv.len(),
    ensures
        fed_messages(conv, k) == fed(calls_in(conv.take(k), 0)),
    decreases k,
{
    if k > 0 {
        lemma_fed_messages(conv, k - 1);
        let cut = conv.take(k);
        assert(cut.drop_last() =~= conv.take(k - 1));
        assert(cut.last() == conv[k - 1]);
        let before = calls_in(conv.take(k - 1), 0);
        match call_in((k - 1) as nat, conv[k - 1]) {
            Some(c) => {
                assert(before.push(c).drop_last() =~= before);
                assert(before.push(c).last() == c);
            },
            None => {},
        }
    } else {
        assert(conv.take(0) =~= Seq::empty());
    }
}

/// Messages fed one at a time: after each, the retries and the parameter
/// drifts are those that a scan of the messages so far reports, and a message
/// that is no tool call changes nothing.
pub proof fn each_message_matches_scan(conv: Seq<Row>, k: int)
    requires
        0 <= k < conv.len(),
        texts_tell(calls_in(conv.take(k + 1), 0)),
    ensures
        ({
            let after = state_at(fed_messages(conv, k), k as nat, conv[k]);
            let calls = calls_in(conv.take(k + 1), 0);
            &&& after == fed_messages(conv, k + 1)
            &&& state_retries(after) == retry_facts(calls)
            &&& state_drifts(after) == drift_facts(calls)
            &&& conv[k].from != "function_call"@ ==> after == fed_messages(conv, k)
        }),
{
    lemma_fed_messages(conv, k + 1);
    incremental_matches_batch(calls_in(conv.take(k + 1), 0));
}

} // verus!
