//! Which calls are a loop.

use crate::signals::execution::loops::{
    deduplicated, drift_facts, insert_sorted, lemma_retries_shape, loop_facts,
    names_at, oscillates, oscillations_from, period_at, repeats, retries_from, retries_of,
    retry_facts, retry_within, runs, same_args, same_until, sorted, variations, without_overlap,
    CallFacts, OscillationFacts,
};
use crate::signals::execution::oscillation::{is_real, scanned_oscillations_are_real, stands_from};
use crate::signals::schemas::{MetadataFacts, SignalType};
use crate::signals::text_processing::distinct;
use vstd::prelude::*;

verus! {

/// Whether a call is the same as another: the same tool with equal arguments.
pub open spec fn is_same_call(a: CallFacts, b: CallFacts) -> bool {
    a.name == b.name && same_args(a, b)
}

proof fn lemma_same_run(calls: Seq<CallFacts>, i: int, j: int)
    requires
        0 <= i < j <= calls.len(),
        forall|k: int| i < k < j ==> is_same_call(#[trigger] calls[k], calls[i]),
    ensures
        j <= same_until(calls, i, j) <= calls.len(),
        forall|k: int| i < k < same_until(calls, i, j) ==> is_same_call(#[trigger] calls[k], calls[i]),
        same_until(calls, i, j) < calls.len() ==> !is_same_call(
            calls[same_until(calls, i, j)],
            calls[i],
        ),
    decreases calls.len() - j,
{
    if j < calls.len() && is_same_call(calls[j], calls[i]) {
        lemma_same_run(calls, i, j + 1);
    }
}

proof fn lemma_until_grows(calls: Seq<CallFacts>, i: int, j: int, n: int)
    requires
        0 <= i < j <= n <= calls.len(),
        forall|k: int| i < k < n ==> is_same_call(#[trigger] calls[k], calls[i]),
    ensures
        same_until(calls, i, j) >= n,
    decreases n - j,
{
    if j < n {
        assert(is_same_call(calls[j], calls[i]));
        lemma_until_grows(calls, i, j + 1, n);
    } else {
        lemma_same_run(calls, i, j);
    }
}

proof fn lemma_retry_is_found(calls: Seq<CallFacts>, i: int, k: int)
    requires
        0 <= k <= i,
        i + 3 <= calls.len(),
        is_same_call(calls[i + 1], calls[i]),
        is_same_call(calls[i + 2], calls[i]),
    ensures
        retries_from(calls, k).len() > 0,
    decreases i - k,
{
    lemma_same_run(calls, k, k + 1);
    if k == i {
        lemma_until_grows(calls, i, i + 1, i + 3);
    } else if same_until(calls, k, k + 1) - k < 3 {
        lemma_retry_is_found(calls, i, k + 1);
    }
}

/// Three calls in a row of one tool with equal arguments are a retry,
/// wherever they stand.
pub proof fn three_equal_calls_are_a_retry(calls: Seq<CallFacts>, i: int)
    requires
        0 <= i,
        i + 3 <= calls.len(),
        is_same_call(calls[i + 1], calls[i]),
        is_same_call(calls[i + 2], calls[i]),
    ensures
        retry_facts(calls).len() > 0,
{
    lemma_retry_is_found(calls, i, 0);
    lemma_retries_shape(calls, 0);
    lemma_retry_signals(calls, retries_from(calls, 0));
}

proof fn lemma_retry_signals(calls: Seq<CallFacts>, rs: Seq<(int, int)>)
    requires
        forall|k: int| 0 <= k < rs.len() ==> (#[trigger] rs[k]).0 + 3 <= rs[k].1,
    ensures
        retries_of(calls, rs).len() == rs.len(),
        forall|k: int|
            0 <= k < rs.len() ==> {
                let f = #[trigger] retries_of(calls, rs)[k];
                &&& f.signal_type == SignalType::ExecutionLoopsRetry
                &&& f.message_index == calls[rs[k].0].index
                &&& f.metadata == (MetadataFacts::Retry {
                    tool_name: calls[rs[k].0].name,
                    start_index: calls[rs[k].0].index,
                    end_index: calls[rs[k].1 - 1].index,
                    call_count: (rs[k].1 - rs[k].0) as nat,
                })
            },
    decreases rs.len(),
{
    if rs.len() > 0 {
        let short = rs.drop_last();
        assert forall|k: int| 0 <= k < short.len() implies (#[trigger] short[k]).0 + 3
            <= short[k].1 by {
            assert(short[k] == rs[k]);
        }
        lemma_retry_signals(calls, short);
        assert(rs.last() == rs[rs.len() - 1]);
    }
}

proof fn lemma_retries_are_runs(calls: Seq<CallFacts>, i: int)
    requires
        0 <= i,
    ensures
        forall|k: int, j: int|
            0 <= k < retries_from(calls, i).len() && (#[trigger] retries_from(calls, i)[k]).0 < j
                < retries_from(calls, i)[k].1 ==> is_same_call(
                #[trigger] calls[j],
                calls[retries_from(calls, i)[k].0],
            ),
    decreases calls.len() - i,
{
    if i < calls.len() {
        lemma_same_run(calls, i, i + 1);
        let e = same_until(calls, i, i + 1);
        let r = retries_from(calls, i);
        if e - i >= 3 {
            lemma_retries_are_runs(calls, e);
            let rest = retries_from(calls, e);
            assert forall|k: int, j: int|
                0 <= k < r.len() && (#[trigger] r[k]).0 < j < r[k].1 implies is_same_call(
                #[trigger] calls[j],
                calls[r[k].0],
            ) by {
                if k > 0 {
                    assert(r[k] == rest[k - 1]);
                }
            }
        } else {
            lemma_retries_are_runs(calls, i + 1);
            assert(r == retries_from(calls, i + 1));
        }
    }
}

/// What is reported as a retry is one: three calls or more in a row, all of
/// one tool and with arguments equal to the first; it is placed at the first.
pub proof fn retries_are_runs_of_equal_calls(calls: Seq<CallFacts>, k: int)
    requires
        0 <= k < retry_facts(calls).len(),
    ensures
        k < retries_from(calls, 0).len(),
        ({
            let (s, e) = retries_from(calls, 0)[k];
            let f = retry_facts(calls)[k];
            &&& 0 <= s
            &&& s + 3 <= e <= calls.len()
            &&& forall|j: int| s < j < e ==> is_same_call(#[trigger] calls[j], calls[s])
            &&& f.signal_type == SignalType::ExecutionLoopsRetry
            &&& f.message_index == calls[s].index
            &&& f.metadata == (MetadataFacts::Retry {
                tool_name: calls[s].name,
                start_index: calls[s].index,
                end_index: calls[e - 1].index,
                call_count: (e - s) as nat,
            })
        }),
{
    lemma_retries_shape(calls, 0);
    lemma_retries_are_runs(calls, 0);
    lemma_retry_signals(calls, retries_from(calls, 0));
}

proof fn lemma_one_run(calls: Seq<CallFacts>)
    requires
        calls.len() > 0,
        forall|i: int| 0 <= i < calls.len() ==> (#[trigger] calls[i]).name == calls[0].name,
    ensures
        runs(calls, false) == seq![(0int, calls.len() as int)],
    decreases calls.len(),
{
    let n = calls.len() as int;
    if n > 1 {
        let short = calls.drop_last();
        assert forall|i: int| 0 <= i < short.len() implies (#[trigger] short[i]).name
            == short[0].name by {
            assert(short[i] == calls[i]);
        }
        lemma_one_run(short);
        assert(calls[n - 1].name == calls[n - 2].name);
        assert(runs(calls, false) =~= seq![(0int, n)]);
    } else {
        assert(calls.drop_last().len() == 0);
        assert(runs(calls.drop_last(), false) =~= Seq::empty());
        assert(runs(calls, false) =~= seq![(0int, n)]);
    }
}

/// Three calls or more of one tool whose arguments vary are a drift, unless
/// there is a retry among them; without variation they are none.
pub proof fn varying_calls_are_a_drift(calls: Seq<CallFacts>)
    requires
        calls.len() > 0,
        forall|i: int| 0 <= i < calls.len() ==> (#[trigger] calls[i]).name == calls[0].name,
    ensures
        ({
            let n = calls.len() as int;
            let varied = variations(calls, 0, n).len();
            let d = drift_facts(calls);
            &&& n >= 3 && varied >= 2 && retries_from(calls, 0).len() == 0 ==> d.len() == 1
                && d[0].signal_type == SignalType::ExecutionLoopsParameterDrift
                && d[0].message_index == calls[0].index
            &&& n < 3 || varied < 2 || retries_from(calls, 0).len() > 0 ==> d.len() == 0
        }),
{
    let n = calls.len() as int;
    lemma_one_run(calls);
    lemma_retries_shape(calls, 0);
    let one = seq![(0int, n)];
    assert(one.drop_last() =~= Seq::empty());
    assert(crate::signals::execution::loops::drifts_of(
        calls,
        one.drop_last(),
        retries_from(calls, 0),
    ).len() == 0);
    assert(one.last() == (0int, n));
    if retries_from(calls, 0).len() > 0 {
        let r = retries_from(calls, 0);
        assert(0 <= r[0].0 && r[0].1 <= n && r[0].1 - r[0].0 >= 3);
        assert(retry_within(r, 0, n));
    }
}

proof fn lemma_period_found(calls: Seq<CallFacts>, i: int, q: int, p: int)
    requires
        q <= p <= 5,
        oscillates(calls, i, p),
    ensures
        period_at(calls, i, q) is Some,
    decreases p - q,
{
    if q < p && !oscillates(calls, i, q) {
        lemma_period_found(calls, i, q + 1, p);
    }
}

proof fn lemma_oscillation_found(calls: Seq<CallFacts>, i: int, p: int, k: int)
    requires
        2 <= p <= 5,
        0 <= k <= i,
        i + 6 <= calls.len(),
        oscillates(calls, i, p),
    ensures
        oscillations_from(calls, k).len() > 0,
    decreases i - k,
{
    if k == i {
        lemma_period_found(calls, i, 2, p);
    } else if period_at(calls, k, 2) is None {
        lemma_oscillation_found(calls, i, p, k + 1);
    }
}

proof fn lemma_sorted_len(s: Seq<OscillationFacts>)
    ensures
        sorted(s).len() == s.len(),
    decreases s.len(),
{
    if s.len() > 0 {
        lemma_sorted_len(s.drop_last());
        lemma_insert_len(sorted(s.drop_last()), s.last());
    }
}

proof fn lemma_insert_len(s: Seq<OscillationFacts>, x: OscillationFacts)
    ensures
        insert_sorted(s, x).len() == s.len() + 1,
    decreases s.len(),
{
    if s.len() > 0 {
        lemma_insert_len(s.drop_last(), x);
    }
}

proof fn lemma_kept_some(s: Seq<OscillationFacts>)
    requires
        s.len() > 0,
    ensures
        without_overlap(s).len() > 0,
    decreases s.len(),
{
    if s.len() > 1 {
        lemma_kept_some(s.drop_last());
    }
}

/// Two to five tools called in turn, three times over, are an oscillation,
/// wherever that stands.
pub proof fn tools_in_turn_are_an_oscillation(calls: Seq<CallFacts>, i: int, p: int)
    requires
        2 <= p <= 5,
        0 <= i,
        i + 3 * p <= calls.len(),
        forall|k: int| i + p <= k < i + 3 * p ==> (#[trigger] calls[k]).name == calls[k - p].name,
        distinct(names_at(calls, i, p)).len() >= 2,
    ensures
        deduplicated(oscillations_from(calls, 0)).len() > 0,
{
    assert forall|k: int| 0 <= k < p implies #[trigger] names_at(calls, i + p, p)[k] == names_at(
        calls,
        i,
        p,
    )[k] by {
        assert(calls[i + p + k].name == calls[i + p + k - p].name);
    }
    assert(names_at(calls, i + p, p) =~= names_at(calls, i, p));
    assert forall|k: int| 0 <= k < p implies #[trigger] names_at(calls, i + 2 * p, p)[k]
        == names_at(calls, i, p)[k] by {
        assert(calls[i + 2 * p + k].name == calls[i + 2 * p + k - p].name);
        assert(calls[i + p + k].name == calls[i + p + k - p].name);
    }
    assert(names_at(calls, i + 2 * p, p) =~= names_at(calls, i, p));
    assert(repeats(calls, i, p, i + p) == 1 + repeats(calls, i, p, i + p + p));
    assert(repeats(calls, i, p, i + p + p) == 1 + repeats(calls, i, p, i + p + p + p));
    assert(oscillates(calls, i, p));
    lemma_oscillation_found(calls, i, p, 0);
    lemma_sorted_len(oscillations_from(calls, 0));
    lemma_kept_some(sorted(oscillations_from(calls, 0)));
}

/// An oscillation that is reported is of two to five calls, of two tools or
/// more, repeated three times or more.
pub proof fn reported_oscillations_are_long_enough(calls: Seq<CallFacts>, k: int)
    requires
        0 <= k < deduplicated(oscillations_from(calls, 0)).len(),
    ensures
        ({
            let o = deduplicated(oscillations_from(calls, 0))[k];
            &&& 2 <= o.names.len() <= 5
            &&& o.cycles >= 3
            &&& distinct(o.names).len() >= 2
        }),
{
    scanned_oscillations_are_real(calls);
    let o = deduplicated(oscillations_from(calls, 0))[k];
    assert(is_real(calls, o));
    let s = choose|s: int| #[trigger] stands_from(calls, o, s);
}

/// Oscillations that are reported do not overlap: each starts after the one
/// before it ended.
pub proof fn reported_oscillations_do_not_overlap(s: Seq<OscillationFacts>, k: int)
    requires
        0 <= k,
        k + 1 < without_overlap(s).len(),
    ensures
        without_overlap(s)[k].end < without_overlap(s)[k + 1].start,
    decreases s.len(),
{
    if s.len() > 0 {
        let kept = without_overlap(s.drop_last());
        if k + 1 < kept.len() {
            reported_oscillations_do_not_overlap(s.drop_last(), k);
        }
    }
}

/// The loops of a conversation are its retries, its drifts and its
/// oscillations.
pub proof fn loops_are_of_three_kinds(calls: Seq<CallFacts>)
    ensures
        loop_facts(calls).len() == retry_facts(calls).len() + drift_facts(calls).len()
            + deduplicated(oscillations_from(calls, 0)).len(),
        forall|k: int|
            0 <= k < retry_facts(calls).len() ==> #[trigger] loop_facts(calls)[k] == retry_facts(
                calls,
            )[k],
{
}

} // verus!
