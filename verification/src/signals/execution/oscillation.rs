//! What a reported oscillation says of the calls, however it was found.

use crate::signals::execution::incremental::{
    fed, lag_closed, lag_matches, lag_seeded, lag_step, open_oscillation, state_after,
    state_oscillations, LagFacts, StateFacts,
};
use crate::signals::execution::loops::{
    comes_before, cycles_at, deduplicated, insert_sorted, lemma_cycles_fit, lemma_period_at,
    names_at, oscillation_at, oscillations_from, period_at, repeats, sorted, without_overlap,
    CallFacts, OscillationFacts, MAX_OSC_PATTERN_LEN, OSCILLATION_CYCLES_THRESHOLD,
};
use crate::signals::text_processing::distinct;
use vstd::prelude::*;

verus! {

/// Whether in the `len` calls from `s` on, each has the name of the call `p`
/// places before, but for the first `p`.
pub open spec fn is_periodic(calls: Seq<CallFacts>, s: int, p: int, len: int) -> bool {
    &&& 0 <= s
    &&& s + len <= calls.len()
    &&& forall|k: int| s + p <= k < s + len ==> (#[trigger] calls[k]).name == calls[k - p].name
}

/// Whether an oscillation is that of the calls from `s` on: its pattern is
/// made of at least two tools, and repeated in full as often as it says.
pub open spec fn stands_from(calls: Seq<CallFacts>, o: OscillationFacts, s: int) -> bool {
    let p = o.names.len() as int;
    let len = o.cycles * p;
    &&& 2 <= p <= MAX_OSC_PATTERN_LEN
    &&& o.cycles >= OSCILLATION_CYCLES_THRESHOLD
    &&& is_periodic(calls, s, p, len)
    &&& o.names == names_at(calls, s, p)
    &&& distinct(o.names).len() >= 2
    &&& o.start == calls[s].index
    &&& o.end == calls[s + len - 1].index
}

/// Whether an oscillation is one of the calls.
pub open spec fn is_real(calls: Seq<CallFacts>, o: OscillationFacts) -> bool {
    exists|s: int| #[trigger] stands_from(calls, o, s)
}

/// Whether all of the oscillations are.
pub open spec fn all_real(calls: Seq<CallFacts>, v: Seq<OscillationFacts>) -> bool {
    forall|i: int| 0 <= i < v.len() ==> is_real(calls, #[trigger] v[i])
}

// ---------------------------------------------------------------------------
// Sorting and selection
// ---------------------------------------------------------------------------

proof fn lemma_insert_sorted(calls: Seq<CallFacts>, s: Seq<OscillationFacts>, x: OscillationFacts)
    requires
        all_real(calls, s),
        is_real(calls, x),
    ensures
        all_real(calls, insert_sorted(s, x)),
    decreases s.len(),
{
    if s.len() > 0 && comes_before(x, s.last()) {
        let shorter = s.drop_last();
        assert forall|i: int| 0 <= i < shorter.len() implies is_real(calls, #[trigger] shorter[i]) by {
            assert(shorter[i] == s[i]);
        }
        lemma_insert_sorted(calls, shorter, x);
        let r = insert_sorted(shorter, x);
        assert forall|i: int| 0 <= i < r.push(s.last()).len() implies is_real(
            calls,
            #[trigger] r.push(s.last())[i],
        ) by {
            if i < r.len() {
                assert(r.push(s.last())[i] == r[i]);
            } else {
                assert(s.last() == s[s.len() - 1]);
            }
        }
    }
}

proof fn lemma_sorted(calls: Seq<CallFacts>, s: Seq<OscillationFacts>)
    requires
        all_real(calls, s),
    ensures
        all_real(calls, sorted(s)),
    decreases s.len(),
{
    if s.len() > 0 {
        let shorter = s.drop_last();
        assert forall|i: int| 0 <= i < shorter.len() implies is_real(calls, #[trigger] shorter[i]) by {
            assert(shorter[i] == s[i]);
        }
        lemma_sorted(calls, shorter);
        assert(s.last() == s[s.len() - 1]);
        lemma_insert_sorted(calls, sorted(shorter), s.last());
    }
}

proof fn lemma_without_overlap(calls: Seq<CallFacts>, s: Seq<OscillationFacts>)
    requires
        all_real(calls, s),
    ensures
        all_real(calls, without_overlap(s)),
    decreases s.len(),
{
    if s.len() > 0 {
        let shorter = s.drop_last();
        assert forall|i: int| 0 <= i < shorter.len() implies is_real(calls, #[trigger] shorter[i]) by {
            assert(shorter[i] == s[i]);
        }
        lemma_without_overlap(calls, shorter);
        let kept = without_overlap(shorter);
        assert(s.last() == s[s.len() - 1]);
        assert forall|i: int| 0 <= i < kept.push(s.last()).len() implies is_real(
            calls,
            #[trigger] kept.push(s.last())[i],
        ) by {
            if i < kept.len() {
                assert(kept.push(s.last())[i] == kept[i]);
            }
        }
    }
}

// ---------------------------------------------------------------------------
// The scan
// ---------------------------------------------------------------------------

proof fn lemma_repeats_periodic(calls: Seq<CallFacts>, i: int, p: int, pos: int)
    requires
        0 <= i,
        p > 0,
        i + p <= pos,
        pos <= calls.len(),
        names_at(calls, pos - p, p) == names_at(calls, i, p),
    ensures
        forall|k: int|
            pos <= k < pos + repeats(calls, i, p, pos) * p ==> (#[trigger] calls[k]).name
                == calls[k - p].name,
    decreases calls.len() - pos,
{
    if pos + p <= calls.len() && names_at(calls, pos, p) == names_at(calls, i, p) {
        lemma_repeats_periodic(calls, i, p, pos + p);
        let r = repeats(calls, i, p, pos + p) as int;
        assert((1 + r) * p == p + r * p) by (nonlinear_arith);
        assert(repeats(calls, i, p, pos) == 1 + r);
        assert forall|k: int| pos <= k < pos + (1 + r) * p implies (#[trigger] calls[k]).name
            == calls[k - p].name by {
            if k < pos + p {
                assert(names_at(calls, pos, p)[k - pos] == names_at(calls, pos - p, p)[k - pos]);
            }
        }
    } else {
        assert(repeats(calls, i, p, pos) == 0);
        assert(0 * p == 0) by (nonlinear_arith);
    }
}

proof fn lemma_scan(calls: Seq<CallFacts>, i: int)
    requires
        0 <= i,
    ensures
        all_real(calls, oscillations_from(calls, i)),
    decreases calls.len() - i,
{
    if i + 2 * OSCILLATION_CYCLES_THRESHOLD <= calls.len() {
        match period_at(calls, i, 2) {
            Some(p) => {
                lemma_period_at(calls, i, 2);
                lemma_cycles_fit(calls, i, p);
                let cycles = cycles_at(calls, i, p) as int;
                let o = oscillation_at(calls, i, p);
                lemma_repeats_periodic(calls, i, p, i + p);
                let r = repeats(calls, i, p, i + p) as int;
                assert((1 + r) * p == p + r * p) by (nonlinear_arith);
                assert(stands_from(calls, o, i));
                let rest = oscillations_from(calls, i + (cycles - 1) * p);
                lemma_scan(calls, i + (cycles - 1) * p);
                let all = seq![o] + rest;
                assert forall|k: int| 0 <= k < all.len() implies is_real(calls, #[trigger] all[k]) by {
                    if k > 0 {
                        assert(all[k] == rest[k - 1]);
                    }
                }
            },
            None => {
                lemma_scan(calls, i + 1);
            },
        }
    }
}

/// Every oscillation that a scan of all the calls reports is one of the
/// calls: the tools of its pattern are called in turn, as often as it says.
pub proof fn scanned_oscillations_are_real(calls: Seq<CallFacts>)
    ensures
        all_real(calls, deduplicated(oscillations_from(calls, 0))),
{
    lemma_scan(calls, 0);
    lemma_sorted(calls, oscillations_from(calls, 0));
    lemma_without_overlap(calls, sorted(oscillations_from(calls, 0)));
}

// ---------------------------------------------------------------------------
// Call by call
// ---------------------------------------------------------------------------

/// What an open segment of period `p` says of the calls so far.
spec fn lag_fits(calls: Seq<CallFacts>, t: LagFacts, p: int) -> bool {
    let s = calls.len() - t.run_len;
    &&& t.period == p
    &&& p <= t.run_len
    &&& is_periodic(calls, s, p, t.run_len as int)
    &&& t.pattern == names_at(calls, s, p)
    &&& t.seg_start == calls[s].index
    &&& t.last_full_cycle_end == calls[s + (t.run_len as int / p) * p - 1].index
    &&& t.seed_ok == (distinct(t.pattern).len() >= 2)
}

spec fn maybe_fits(calls: Seq<CallFacts>, t: Option<LagFacts>, p: int) -> bool {
    match t {
        Some(t) => lag_fits(calls, t, p),
        None => true,
    }
}

/// Whether the calls that are remembered are the last ones.
spec fn recent_fits(calls: Seq<CallFacts>, recent: Seq<(nat, Seq<char>)>) -> bool {
    let n = calls.len() as int;
    let r = recent.len() as int;
    &&& r == (if n < MAX_OSC_PATTERN_LEN { n } else { MAX_OSC_PATTERN_LEN as int })
    &&& forall|k: int|
        0 <= k < r ==> (#[trigger] recent[k]) == (calls[n - r + k].index, calls[n - r + k].name)
}

spec fn state_fits(calls: Seq<CallFacts>, st: StateFacts) -> bool {
    &&& recent_fits(calls, st.recent)
    &&& maybe_fits(calls, st.lag2, 2)
    &&& maybe_fits(calls, st.lag3, 3)
    &&& maybe_fits(calls, st.lag4, 4)
    &&& maybe_fits(calls, st.lag5, 5)
    &&& all_real(calls, st.closed_osc)
}

proof fn lemma_full_cycles(run_len: int, p: int)
    requires
        2 <= p <= 5,
        p <= run_len,
    ensures
        p <= (run_len / p) * p <= run_len,
        (run_len + 1) % p == 0 ==> ((run_len + 1) / p) * p == run_len + 1,
        (run_len + 1) % p != 0 ==> (run_len + 1) / p == run_len / p,
{
    let q = run_len / p;
    let r = run_len % p;
    vstd::arithmetic::div_mod::lemma_fundamental_div_mod(run_len, p);
    assert(p * q == q * p) by (nonlinear_arith);
    assert(q >= 1) by (nonlinear_arith)
        requires
            run_len == p * q + r,
            r < p,
            p <= run_len,
            p > 0,
    ;
    assert(q * p >= p) by (nonlinear_arith)
        requires
            q >= 1,
            p > 0,
    ;
    if r + 1 < p {
        vstd::arithmetic::div_mod::lemma_fundamental_div_mod_converse(run_len + 1, p, q, r + 1);
    } else {
        assert((q + 1) * p == q * p + p) by (nonlinear_arith);
        vstd::arithmetic::div_mod::lemma_fundamental_div_mod_converse(run_len + 1, p, q + 1, 0);
    }
}

/// An oscillation of the calls stays one when more calls follow.
proof fn lemma_real_push(calls: Seq<CallFacts>, c: CallFacts, o: OscillationFacts)
    requires
        is_real(calls, o),
    ensures
        is_real(calls.push(c), o),
{
    let s = choose|s: int| #[trigger] stands_from(calls, o, s);
    let p = o.names.len() as int;
    let len = o.cycles * p;
    let more = calls.push(c);
    assert(len >= p) by (nonlinear_arith)
        requires
            len == o.cycles * p,
            o.cycles >= 1,
            p >= 2,
    ;
    assert forall|k: int| s + p <= k < s + len implies (#[trigger] more[k]).name == more[k
        - p].name by {
        assert(more[k] == calls[k]);
        assert(more[k - p] == calls[k - p]);
    }
    assert(names_at(more, s, p) =~= names_at(calls, s, p));
    assert(stands_from(more, o, s));
}

proof fn lemma_all_real_push(calls: Seq<CallFacts>, c: CallFacts, v: Seq<OscillationFacts>)
    requires
        all_real(calls, v),
    ensures
        all_real(calls.push(c), v),
{
    assert forall|i: int| 0 <= i < v.len() implies is_real(calls.push(c), #[trigger] v[i]) by {
        lemma_real_push(calls, c, v[i]);
    }
}

/// An open segment that is long enough is an oscillation of the calls.
proof fn lemma_lag_is_real(calls: Seq<CallFacts>, t: LagFacts, p: int)
    requires
        2 <= p <= 5,
        lag_fits(calls, t, p),
        t.qualifies(),
    ensures
        is_real(calls, t.oscillation()),
{
    let s = calls.len() - t.run_len;
    let o = t.oscillation();
    lemma_full_cycles(t.run_len as int, p);
    assert(o.names.len() == p);
    assert(o.cycles == t.run_len as int / p);
    assert(stands_from(calls, o, s));
}

proof fn lemma_lag_step(
    calls: Seq<CallFacts>,
    c: CallFacts,
    recent: Seq<(nat, Seq<char>)>,
    t: Option<LagFacts>,
    p: int,
)
    requires
        2 <= p <= 5,
        recent_fits(calls, recent),
        maybe_fits(calls, t, p),
    ensures
        maybe_fits(calls.push(c), lag_step(t, recent, c, p as nat), p),
        all_real(calls.push(c), lag_closed(t, recent, c, p as nat)),
{
    let n = calls.len() as int;
    let r = recent.len() as int;
    let more = calls.push(c);
    if lag_matches(recent, c, p as nat) {
        assert(recent[r - p] == (calls[n - p].index, calls[n - p].name));
        if t is Some {
            let old_t = t->0;
            let s = n - old_t.run_len;
            let new_t = lag_step(t, recent, c, p as nat)->0;
            lemma_full_cycles(old_t.run_len as int, p);
            assert(more.len() - new_t.run_len == s);
            assert forall|k: int| s + p <= k < s + new_t.run_len implies (#[trigger] more[k]).name
                == more[k - p].name by {
                assert(more[k - p] == calls[k - p]);
                if k < n {
                    assert(more[k] == calls[k]);
                }
            }
            assert(names_at(more, s, p) =~= names_at(calls, s, p));
            assert(lag_fits(more, new_t, p));
        }
    } else {
        if r + 1 >= p {
            let new_t = lag_seeded(recent, c, p as nat);
            let s = n + 1 - p;
            let first = r - (p - 1);
            assert forall|k: int| 0 <= k < p implies #[trigger] new_t.pattern[k] == names_at(
                more,
                s,
                p,
            )[k] by {
                if k < p - 1 {
                    assert(recent[first + k] == (
                        calls[n - r + first + k].index,
                        calls[n - r + first + k].name,
                    ));
                    assert(more[s + k] == calls[s + k]);
                }
            }
            assert(new_t.pattern =~= names_at(more, s, p));
            assert(recent[first] == (calls[s].index, calls[s].name));
            assert(p / p == 1) by (nonlinear_arith)
                requires
                    p > 0,
            ;
            assert(lag_fits(more, new_t, p));
        }
        if t is Some && t->0.qualifies() {
            lemma_lag_is_real(calls, t->0, p);
            lemma_real_push(calls, c, t->0.oscillation());
        }
    }
}

proof fn lemma_all_real_concat(
    calls: Seq<CallFacts>,
    a: Seq<OscillationFacts>,
    b: Seq<OscillationFacts>,
)
    requires
        all_real(calls, a),
        all_real(calls, b),
    ensures
        all_real(calls, a + b),
{
    assert forall|i: int| 0 <= i < (a + b).len() implies is_real(calls, #[trigger] (a + b)[i]) by {
        if i < a.len() {
            assert((a + b)[i] == a[i]);
        } else {
            assert((a + b)[i] == b[i - a.len()]);
        }
    }
}

proof fn lemma_recent_step(calls: Seq<CallFacts>, c: CallFacts, recent: Seq<(nat, Seq<char>)>)
    requires
        recent_fits(calls, recent),
    ensures
        ({
            let longer = recent.push((c.index, c.name));
            recent_fits(
                calls.push(c),
                if longer.len() > MAX_OSC_PATTERN_LEN {
                    longer.skip(1)
                } else {
                    longer
                },
            )
        }),
{
    let n = calls.len() as int;
    let r = recent.len() as int;
    let more = calls.push(c);
    let longer = recent.push((c.index, c.name));
    let next = if longer.len() > MAX_OSC_PATTERN_LEN { longer.skip(1) } else { longer };
    let m = next.len() as int;
    assert forall|k: int| 0 <= k < m implies (#[trigger] next[k]) == (
        more[n + 1 - m + k].index,
        more[n + 1 - m + k].name,
    ) by {
        let at = if longer.len() > MAX_OSC_PATTERN_LEN { k + 1 } else { k };
        assert(next[k] == longer[at]);
        if at < r {
            assert(longer[at] == recent[at]);
            assert(more[n - r + at] == calls[n - r + at]);
        }
    }
}

proof fn lemma_state_step(calls: Seq<CallFacts>, c: CallFacts, st: StateFacts)
    requires
        state_fits(calls, st),
    ensures
        state_fits(calls.push(c), state_after(st, c)),
{
    let more = calls.push(c);
    lemma_recent_step(calls, c, st.recent);
    lemma_lag_step(calls, c, st.recent, st.lag2, 2);
    lemma_lag_step(calls, c, st.recent, st.lag3, 3);
    lemma_lag_step(calls, c, st.recent, st.lag4, 4);
    lemma_lag_step(calls, c, st.recent, st.lag5, 5);
    lemma_all_real_push(calls, c, st.closed_osc);
    let c2 = lag_closed(st.lag2, st.recent, c, 2);
    let c3 = lag_closed(st.lag3, st.recent, c, 3);
    let c4 = lag_closed(st.lag4, st.recent, c, 4);
    let c5 = lag_closed(st.lag5, st.recent, c, 5);
    lemma_all_real_concat(more, st.closed_osc, c2);
    lemma_all_real_concat(more, st.closed_osc + c2, c3);
    lemma_all_real_concat(more, st.closed_osc + c2 + c3, c4);
    lemma_all_real_concat(more, st.closed_osc + c2 + c3 + c4, c5);
}

proof fn lemma_fed(calls: Seq<CallFacts>)
    ensures
        state_fits(calls, fed(calls)),
    decreases calls.len(),
{
    if calls.len() > 0 {
        lemma_fed(calls.drop_last());
        lemma_state_step(calls.drop_last(), calls.last(), fed(calls.drop_last()));
        assert(calls.drop_last().push(calls.last()) =~= calls);
    }
}

/// Every oscillation that is reported while calls are fed one at a time is
/// one of the calls: the tools of its pattern are called in turn, as often as
/// it says.
pub proof fn stepped_oscillations_are_real(calls: Seq<CallFacts>)
    ensures
        all_real(calls, state_oscillations(fed(calls))),
{
    let st = fed(calls);
    lemma_fed(calls);
    let open = open_oscillation(st);
    assert(all_real(calls, open)) by {
        if st.lag2 is Some && st.lag2->0.qualifies() {
            lemma_lag_is_real(calls, st.lag2->0, 2);
        } else if st.lag3 is Some && st.lag3->0.qualifies() {
            lemma_lag_is_real(calls, st.lag3->0, 3);
        } else if st.lag4 is Some && st.lag4->0.qualifies() {
            lemma_lag_is_real(calls, st.lag4->0, 4);
        } else if st.lag5 is Some && st.lag5->0.qualifies() {
            lemma_lag_is_real(calls, st.lag5->0, 5);
        }
    }
    lemma_all_real_concat(calls, st.closed_osc, open);
    lemma_sorted(calls, st.closed_osc + open);
    lemma_without_overlap(calls, sorted(st.closed_osc + open));
}

} // verus!
