//! Stepping through a conversation message by message lands on the report of
//! the conversation as a whole.

use crate::natural::Ratio;
use crate::signals::analyzer::{
    assembled, batch_report, cut, dragging_at, horizon, is_spoken, last_call_between, last_of,
    of_role_between, recent_of_role, repetitions_in, report_after, row_turns, spoken,
    stepped_environment, stepped_execution, stepped_interaction, stepped_metrics, stepped_report,
    tag, whole_environment, whole_execution, whole_interaction, whole_metrics, whole_report,
    whole_stagnation, without_dragging, Row, SignalAnalyzerConfig,
};
use crate::signals::environment::exhaustion::exhaustion_facts;
use crate::signals::execution::failure::{failure_facts, last_call};
use crate::signals::execution::loops::{calls_in, lemma_few_calls};
use crate::signals::interaction::disengagement::disengagement_facts;
use crate::signals::interaction::messages::{Tagged, Thresholds};
use crate::signals::interaction::misalignment::{last_human, misalignment_facts};
use crate::signals::interaction::satisfaction::satisfaction_facts;
use crate::signals::interaction::stagnation::{
    last_n, of_role, repetition_after, repetition_at, repetition_facts, repetition_of,
};
use crate::signals::schemas::{quiet_report, ReportFacts, SignalFacts, SignalType};
use vstd::prelude::*;

verus! {

// ---------------------------------------------------------------------------
// What a prefix determines
// ---------------------------------------------------------------------------

proof fn lemma_misalignment_prefix(a: Seq<Tagged>, x: Tagged, n: int, t: Thresholds)
    requires
        n <= a.len(),
    ensures
        misalignment_facts(a.push(x), n, t) == misalignment_facts(a, n, t),
    decreases n,
{
    if n > 0 {
        lemma_misalignment_prefix(a, x, n - 1, t);
        assert(a.push(x).take(n - 1) =~= a.take(n - 1));
        assert(a.push(x)[n - 1] == a[n - 1]);
    }
}

proof fn lemma_disengagement_prefix(a: Seq<Tagged>, x: Tagged, n: int, t: Thresholds)
    requires
        n <= a.len(),
    ensures
        disengagement_facts(a.push(x), n, t) == disengagement_facts(a, n, t),
    decreases n,
{
    if n > 0 {
        lemma_disengagement_prefix(a, x, n - 1, t);
        assert(a.push(x)[n - 1] == a[n - 1]);
    }
}

proof fn lemma_satisfaction_prefix(a: Seq<Tagged>, x: Tagged, n: int, t: Thresholds)
    requires
        n <= a.len(),
    ensures
        satisfaction_facts(a.push(x), n, t) == satisfaction_facts(a, n, t),
    decreases n,
{
    if n > 0 {
        lemma_satisfaction_prefix(a, x, n - 1, t);
        assert(a.push(x)[n - 1] == a[n - 1]);
    }
}

proof fn lemma_repetition_prefix(
    a: Seq<Tagged>,
    x: Tagged,
    n: int,
    lookback: nat,
    exact: Ratio,
    near: Ratio,
)
    requires
        n <= a.len(),
    ensures
        repetition_facts(a.push(x), n, lookback, exact, near) == repetition_facts(
            a,
            n,
            lookback,
            exact,
            near,
        ),
    decreases n,
{
    if n > 0 {
        lemma_repetition_prefix(a, x, n - 1, lookback, exact, near);
        assert(a.push(x).take(n - 1) =~= a.take(n - 1));
        assert(a.push(x)[n - 1] == a[n - 1]);
    }
}

proof fn lemma_failure_prefix(conv: Seq<Row>, i: int, n: int)
    requires
        n <= i <= conv.len(),
    ensures
        failure_facts(conv.take(i), 0, n) == failure_facts(conv, 0, n),
    decreases n,
{
    if n > 0 {
        lemma_failure_prefix(conv, i, n - 1);
        assert(conv.take(i).take(n - 1) =~= conv.take(n - 1));
        assert(conv.take(i)[n - 1] == conv[n - 1]);
    }
}

proof fn lemma_exhaustion_prefix(conv: Seq<Row>, i: int, n: int)
    requires
        n <= i <= conv.len(),
    ensures
        exhaustion_facts(conv.take(i), 0, n) == exhaustion_facts(conv, 0, n),
    decreases n,
{
    if n > 0 {
        lemma_exhaustion_prefix(conv, i, n - 1);
        assert(conv.take(i)[n - 1] == conv[n - 1]);
    }
}

// ---------------------------------------------------------------------------
// Context
// ---------------------------------------------------------------------------

/// The messages of a role among the first `i` rows are those of that role
/// among what was spoken in them.
proof fn lemma_of_role(conv: Seq<Row>, i: int, role: Seq<char>, max: nat)
    requires
        0 <= i <= conv.len(),
        role == "human"@ || role == "gpt"@,
    ensures
        of_role_between(conv, 0, i, role, max) == of_role(spoken(conv.take(i), 0, max), role),
    decreases i,
{
    if i > 0 {
        lemma_of_role(conv, i - 1, role, max);
        let now = conv.take(i);
        assert(now.drop_last() =~= conv.take(i - 1));
        assert(now.last() == conv[i - 1]);
        let before = spoken(conv.take(i - 1), 0, max);
        if is_spoken(conv[i - 1]) {
            let x = tag(conv[i - 1], (i - 1) as nat, max);
            assert(spoken(now, 0, max) == before.push(x));
            assert(before.push(x).drop_last() =~= before);
        }
    }
}

proof fn lemma_last_human(ms: Seq<Tagged>)
    ensures
        last_human(ms) == last_of(of_role(ms, "human"@)),
    decreases ms.len(),
{
    if ms.len() > 0 {
        lemma_last_human(ms.drop_last());
    }
}

proof fn lemma_last_call(conv: Seq<Row>, i: int)
    requires
        0 <= i <= conv.len(),
    ensures
        last_call_between(conv, 0, i) == last_call(conv.take(i), 0),
    decreases i,
{
    if i > 0 {
        lemma_last_call(conv, i - 1);
        assert(conv.take(i).drop_last() =~= conv.take(i - 1));
        assert(conv.take(i).last() == conv[i - 1]);
    }
}

proof fn lemma_row_turns_bound(conv: Seq<Row>, role: Seq<char>)
    ensures
        row_turns(conv, role) <= conv.len(),
    decreases conv.len(),
{
    if conv.len() > 0 {
        lemma_row_turns_bound(conv.drop_last(), role);
    }
}

proof fn lemma_repetition_type(m: Tagged, earlier: Seq<Tagged>, exact: Ratio, near: Ratio, k: int)
    ensures
        match repetition_of(m, earlier, exact, near, k) {
            Some(f) => f.signal_type == SignalType::StagnationRepetition,
            None => true,
        },
    decreases earlier.len() - k,
{
    if k < earlier.len() {
        lemma_repetition_type(m, earlier, exact, near, k + 1);
    }
}

proof fn lemma_without_dragging_add(a: Seq<SignalFacts>, b: Seq<SignalFacts>)
    ensures
        without_dragging(a + b) == without_dragging(a) + without_dragging(b),
    decreases b.len(),
{
    if b.len() == 0 {
        assert(a + b =~= a);
        assert(without_dragging(a) + without_dragging(b) =~= without_dragging(a));
    } else {
        lemma_without_dragging_add(a, b.drop_last());
        assert((a + b).drop_last() =~= a + b.drop_last());
        assert((a + b).last() == b.last());
        let x = without_dragging(a);
        let y = without_dragging(b.drop_last());
        assert(x + y.push(b.last()) =~= (x + y).push(b.last()));
    }
}

proof fn lemma_repetitions_kept(
    ms: Seq<Tagged>,
    n: int,
    lookback: nat,
    exact: Ratio,
    near: Ratio,
)
    ensures
        without_dragging(repetition_facts(ms, n, lookback, exact, near)) == repetition_facts(
            ms,
            n,
            lookback,
            exact,
            near,
        ),
    decreases n,
{
    if n > 0 {
        lemma_repetitions_kept(ms, n - 1, lookback, exact, near);
        let shown = repetition_at(ms, n - 1, lookback, exact, near);
        let before = repetition_facts(ms, n - 1, lookback, exact, near);
        lemma_without_dragging_add(before, shown);
        let earlier = last_n(of_role(ms.take(n - 1), ms[n - 1].role), lookback);
        lemma_repetition_type(ms[n - 1], earlier, exact, near, 0);
        assert(without_dragging(shown) =~= shown) by {
            if shown.len() > 0 {
                assert(shown.drop_last() =~= Seq::empty());
                assert(without_dragging(shown.drop_last()) =~= Seq::empty());
                assert(shown.last().signal_type == SignalType::StagnationRepetition);
                assert(shown =~= Seq::empty().push(shown.last()));
            }
        }
    }
}

proof fn lemma_dragging_dropped(cfg: SignalAnalyzerConfig, conv: Seq<Row>)
    ensures
        without_dragging(whole_stagnation(cfg, conv, 0)) == repetitions_in(
            spoken(conv, 0, cfg.max_message_length as nat),
        ),
{
    let ms = spoken(conv, 0, cfg.max_message_length as nat);
    let last = (if conv.len() == 0 { 0 } else { conv.len() - 1 }) as nat;
    let d = dragging_at(cfg, whole_metrics(cfg, conv), last);
    lemma_without_dragging_add(d, repetitions_in(ms));
    lemma_repetitions_kept(
        ms,
        ms.len() as int,
        2,
        Ratio { num: 95, den: 100 },
        Ratio { num: 85, den: 100 },
    );
    assert(without_dragging(d) =~= Seq::empty()) by {
        if d.len() > 0 {
            assert(d.drop_last() =~= Seq::empty());
            assert(without_dragging(d.drop_last()) =~= Seq::empty());
        }
    }
    assert(Seq::<SignalFacts>::empty() + repetitions_in(ms) =~= repetitions_in(ms));
}

/// Whether the bounded search for context of row `i` finds what an unbounded
/// one would.
pub open spec fn sees_context(cfg: SignalAnalyzerConfig, conv: Seq<Row>, i: int) -> bool {
    &&& is_spoken(conv[i]) ==> recent_of_role(cfg, conv, i, conv[i].from) == last_n(
        of_role_between(conv, 0, i, conv[i].from, cfg.max_message_length as nat),
        2,
    )
    &&& conv[i].from == "observation"@ ==> last_call_between(conv, horizon(cfg, i), i)
        == last_call_between(conv, 0, i)
}

/// Whether a report agrees, in what a step reads of it, with the whole of a
/// conversation.
spec fn agrees(p: ReportFacts, cfg: SignalAnalyzerConfig, conv: Seq<Row>) -> bool {
    let i = whole_interaction(cfg, conv, 0);
    let x = whole_execution(conv, 0);
    &&& p.interaction.misalignment.signals == i.misalignment.signals
    &&& p.interaction.disengagement.signals == i.disengagement.signals
    &&& p.interaction.satisfaction.signals == i.satisfaction.signals
    &&& without_dragging(p.interaction.stagnation.signals) == repetitions_in(
        spoken(conv, 0, cfg.max_message_length as nat),
    )
    &&& p.execution.failure.signals == x.failure.signals
    &&& p.execution.loops == x.loops
    &&& p.environment.exhaustion.signals == whole_environment(conv, 0).exhaustion.signals
    &&& p.turn_metrics.user_turns == whole_metrics(cfg, conv).user_turns
    &&& p.turn_metrics.assistant_turns == whole_metrics(cfg, conv).assistant_turns
}

proof fn lemma_quiet_agrees(cfg: SignalAnalyzerConfig)
    ensures
        agrees(quiet_report(), cfg, Seq::empty()),
{
    let conv = Seq::<Row>::empty();
    let ms = spoken(conv, 0, cfg.max_message_length as nat);
    assert(ms =~= Seq::empty());
    assert(calls_in(conv, 0) =~= Seq::empty());
    lemma_few_calls(calls_in(conv, 0));
    assert(without_dragging(quiet_report().interaction.stagnation.signals) =~= Seq::empty());
}

proof fn lemma_whole_agrees(cfg: SignalAnalyzerConfig, conv: Seq<Row>)
    ensures
        agrees(whole_report(cfg, conv, 0), cfg, conv),
{
    reveal(assembled);
    lemma_dragging_dropped(cfg, conv);
}

proof fn lemma_step_interaction(cfg: SignalAnalyzerConfig, conv: Seq<Row>, i: int, prev: ReportFacts)
    requires
        0 <= i < conv.len(),
        sees_context(cfg, conv, i),
        agrees(prev, cfg, conv.take(i)),
    ensures
        stepped_interaction(
            cfg,
            conv,
            i,
            prev.interaction,
            whole_metrics(cfg, conv.take(i + 1)),
        ) == whole_interaction(cfg, conv.take(i + 1), 0),
{
    let max = cfg.max_message_length as nat;
    let t = cfg.thresholds();
    let exact = Ratio { num: 95, den: 100 };
    let near = Ratio { num: 85, den: 100 };
    let next = conv.take(i + 1);
    let row = conv[i];
    let before = spoken(conv.take(i), 0, max);
    let after = spoken(next, 0, max);
    let n = before.len() as int;
    assert(next.drop_last() =~= conv.take(i));
    assert(next.last() == row);
    let stepped = stepped_interaction(cfg, conv, i, prev.interaction, whole_metrics(cfg, next));
    let whole = whole_interaction(cfg, next, 0);
    if is_spoken(row) {
        let x = tag(row, i as nat, max);
        assert(after == before.push(x));
        assert(after.take(n) =~= before);
        lemma_misalignment_prefix(before, x, n, t);
        lemma_disengagement_prefix(before, x, n, t);
        lemma_satisfaction_prefix(before, x, n, t);
        lemma_repetition_prefix(before, x, n, 2, exact, near);
        lemma_of_role(conv, i, row.from, max);
        lemma_last_human(before);
        let same = of_role(before, row.from);
        let earlier = last_n(same, 2);
        assert(recent_of_role(cfg, conv, i, row.from) == earlier);
        assert(last_of(earlier) == last_of(same));
        assert(last_n(earlier, 2) =~= last_n(same, 2));
        assert(repetition_after(x, earlier, 2, exact, near) == repetition_at(
            after,
            n,
            2,
            exact,
            near,
        ));
        assert(stepped.stagnation.signals =~= whole.stagnation.signals);
        assert(stepped.misalignment.signals =~= whole.misalignment.signals);
        assert(stepped.disengagement.signals =~= whole.disengagement.signals);
        assert(stepped.satisfaction.signals =~= whole.satisfaction.signals);
    } else {
        assert(after == before);
        assert(stepped.stagnation.signals =~= whole.stagnation.signals);
        assert(stepped.misalignment.signals =~= whole.misalignment.signals);
        assert(stepped.disengagement.signals =~= whole.disengagement.signals);
        assert(stepped.satisfaction.signals =~= whole.satisfaction.signals);
    }
}

proof fn lemma_step_execution(cfg: SignalAnalyzerConfig, conv: Seq<Row>, i: int, prev: ReportFacts)
    requires
        0 <= i < conv.len(),
        sees_context(cfg, conv, i),
        agrees(prev, cfg, conv.take(i)),
    ensures
        stepped_execution(cfg, conv, i, prev.execution) == whole_execution(conv.take(i + 1), 0),
        stepped_environment(conv, i, prev.environment) == whole_environment(conv.take(i + 1), 0),
{
    let next = conv.take(i + 1);
    assert(next.drop_last() =~= conv.take(i));
    assert(next.last() == conv[i]);
    assert(next.take(i) =~= conv.take(i));
    assert(next[i] == conv[i]);
    lemma_failure_prefix(conv, i, i);
    lemma_failure_prefix(conv, i + 1, i);
    lemma_exhaustion_prefix(conv, i, i);
    lemma_exhaustion_prefix(conv, i + 1, i);
    lemma_last_call(conv, i);
    let stepped = stepped_execution(cfg, conv, i, prev.execution);
    let whole = whole_execution(next, 0);
    assert(stepped.failure.signals =~= whole.failure.signals);
    assert(stepped_environment(conv, i, prev.environment).exhaustion.signals
        =~= whole_environment(next, 0).exhaustion.signals);
}

/// A step from a report that agrees with the whole of the rows before it
/// gives the report of the whole of the rows up to it.
proof fn lemma_step(cfg: SignalAnalyzerConfig, conv: Seq<Row>, i: int, prev: ReportFacts)
    requires
        0 <= i < conv.len() <= usize::MAX,
        sees_context(cfg, conv, i),
        agrees(prev, cfg, conv.take(i)),
    ensures
        stepped_report(cfg, conv, i, prev) == whole_report(cfg, conv.take(i + 1), 0),
{
    reveal(stepped_report);
    let next = conv.take(i + 1);
    assert(next.drop_last() =~= conv.take(i));
    assert(next.last() == conv[i]);
    lemma_row_turns_bound(conv.take(i), "human"@);
    lemma_row_turns_bound(conv.take(i), "gpt"@);
    lemma_row_turns_bound(next, "human"@);
    lemma_row_turns_bound(next, "gpt"@);
    assert(stepped_metrics(cfg, conv[i], prev.turn_metrics) == whole_metrics(cfg, next));
    lemma_step_interaction(cfg, conv, i, prev);
    lemma_step_execution(cfg, conv, i, prev);
}

/// After each of its messages, the report made step by step is the report of
/// the conversation so far, provided that the bounded look back reaches the
/// context each message needs.
pub proof fn stepping_matches_whole(cfg: SignalAnalyzerConfig, conv: Seq<Row>, n: int)
    requires
        0 < n <= conv.len() <= usize::MAX,
        forall|i: int| 0 <= i < n ==> #[trigger] sees_context(cfg, conv, i),
    ensures
        report_after(cfg, conv, n) == whole_report(cfg, conv.take(n), 0),
    decreases n,
{
    assert(sees_context(cfg, conv, n - 1));
    let prev = report_after(cfg, conv, n - 1);
    if n > 1 {
        stepping_matches_whole(cfg, conv, n - 1);
        lemma_whole_agrees(cfg, conv.take(n - 1));
    } else {
        lemma_quiet_agrees(cfg);
        assert(conv.take(0) =~= Seq::empty());
    }
    lemma_step(cfg, conv, n - 1, prev);
}

/// Stepping through a conversation message by message lands on the report
/// that analyzing the conversation in one pass gives, for every conversation
/// that the pass does not cut short and whose context the bounded look back
/// reaches.
pub proof fn stepping_matches_batch(cfg: SignalAnalyzerConfig, conv: Seq<Row>)
    requires
        0 < conv.len() <= usize::MAX,
        conv.len() <= cfg.max_messages,
        forall|i: int| 0 <= i < conv.len() ==> #[trigger] sees_context(cfg, conv, i),
    ensures
        report_after(cfg, conv, conv.len() as int) == batch_report(cfg, conv),
{
    stepping_matches_whole(cfg, conv, conv.len() as int);
    assert(conv.take(conv.len() as int) =~= conv);
    assert(conv.skip(0) =~= conv);
}

/// The report after `k` messages, where each step is given the conversation
/// so far and the report before it.
pub open spec fn grown_report(cfg: SignalAnalyzerConfig, conv: Seq<Row>, k: int) -> ReportFacts
    decreases k,
{
    if k <= 0 {
        quiet_report()
    } else {
        stepped_report(cfg, conv.take(k), k - 1, grown_report(cfg, conv, k - 1))
    }
}

proof fn lemma_grown_report(cfg: SignalAnalyzerConfig, conv: Seq<Row>, k: int)
    requires
        0 < k <= conv.len() <= usize::MAX,
        k <= cfg.context_lookback + 1,
    ensures
        grown_report(cfg, conv, k) == whole_report(cfg, conv.take(k), 0),
    decreases k,
{
    let prev = grown_report(cfg, conv, k - 1);
    let cut = conv.take(k);
    short_conversations_see_context(cfg, cut, k - 1);
    assert(cut.take(k - 1) =~= conv.take(k - 1));
    if k > 1 {
        lemma_grown_report(cfg, conv, k - 1);
        lemma_whole_agrees(cfg, conv.take(k - 1));
    } else {
        lemma_quiet_agrees(cfg);
        assert(conv.take(0) =~= Seq::empty());
    }
    lemma_step(cfg, cut, k - 1, prev);
    assert(cut.take(k) =~= cut);
}

/// A conversation that grows by one message at a time, each step given the
/// report of the step before, lands on the report that analyzing it in one
/// pass gives: the same signals and the same quality. It is one that the pass
/// does not cut short and that the look back reaches over.
pub proof fn growing_matches_batch(cfg: SignalAnalyzerConfig, conv: Seq<Row>)
    requires
        0 < conv.len() <= usize::MAX,
        conv.len() <= cfg.max_messages,
        conv.len() <= cfg.context_lookback + 1,
    ensures
        grown_report(cfg, conv, conv.len() as int) == batch_report(cfg, conv),
{
    lemma_grown_report(cfg, conv, conv.len() as int);
    assert(conv.take(conv.len() as int) =~= conv);
    assert(conv.skip(0) =~= conv);
}

/// Within the look back, every message sees all the context it needs.
pub proof fn short_conversations_see_context(cfg: SignalAnalyzerConfig, conv: Seq<Row>, i: int)
    requires
        0 <= i < conv.len(),
        i <= cfg.context_lookback,
    ensures
        sees_context(cfg, conv, i),
{
}

} // verus!
