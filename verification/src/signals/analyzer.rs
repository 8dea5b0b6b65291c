//! Top-level signal analyzer.
//!
//! Two entry points:
//!
//! - [`SignalAnalyzer::analyze_sharegpt`] / [`SignalAnalyzer::analyze_openai`]:
//!   grade a whole conversation in one pass.
//! - [`SignalAnalyzer::analyze_step`]: grade the newest message using the
//!   report returned for the previous message. Every detector only looks a
//!   bounded distance backwards, so this does constant work per text message
//!   regardless of conversation length. [`SignalAnalyzer::get_message_reports`]
//!   is built on it.

use crate::chat::{message_body, Message, Role, ToolCallRequest};
use crate::json::{json_object_text, members_view, object_text};
use crate::natural::Ratio;
use crate::signals::environment::exhaustion::{
    analyze_exhaustion_from, exhaustion_at, exhaustion_facts, observe_exhaustion,
};
use crate::signals::execution::failure::{
    analyze_failure_from, extract_tool_info, failure_facts, failure_in, observe_failure, tool_info,
};
use crate::signals::execution::loops::{
    analyze_loops, analyze_loops_from, calls_in, loop_facts,
};
use crate::signals::interaction::disengagement::{
    analyze_disengagement, disengagement_at, disengagement_facts, disengagement_signals,
};
use crate::signals::interaction::messages::{tagged, tagged_view, Tagged, TaggedMessage, Thresholds};
use crate::signals::interaction::misalignment::{
    analyze_misalignment, misalignment_facts, misalignment_of, misalignment_signal,
};
use crate::signals::interaction::satisfaction::{
    analyze_satisfaction, satisfaction_at, satisfaction_facts, satisfaction_signal,
};
use crate::signals::interaction::stagnation::{
    analyze_dragging, analyze_repetition, compute_turn_metrics, dragging_fact, dragging_signal,
    last_n, metrics_of, repetition_after, repetition_facts, repetition_signals, turns_of,
    ShareGptMsg,
};
use crate::signals::quality::{
    assess_quality, assessment, generate_summary, summary_text, type_count,
};
use crate::signals::schemas::{
    clone_signals, extend_signals, group_of, lemma_signals_push, make_group, quiet_report,
    signal_refs, signals_view, EnvironmentFacts, EnvironmentSignals, ExecutionFacts,
    ExecutionSignals, InteractionFacts, InteractionSignals, MessageReport, MessageReportFacts,
    ReportFacts, SignalFacts, SignalGroup, SignalInstance, SignalReport, SignalType, TurnMetrics,
};
use crate::signals::text_processing::{message_text, NormalizedMessage};
use crate::text::{
    chars_of, contains, find_char, first_index, occurs_in, same_text, text_of,
};
use vstd::prelude::*;
use vstd::slice::slice_subrange;

verus! {

/// Marker appended to the span operation name when concerning signals are
/// detected, the emoji U+1F6A9.
pub const FLAG_MARKER: &'static str = "\u{1F6A9}";

/// ShareGPT-shaped row used as the canonical input to the analyzer's
/// detectors. `from` is one of `"human"`, `"gpt"`, `"function_call"`,
/// `"observation"`. `value` is the raw message body.
#[derive(Debug, Clone, Copy)]
pub struct ShareGptMessage<'a> {
    pub from: &'a str,
    pub value: &'a str,
}

/// What a [`ShareGptMessage`] says.
pub struct Row {
    pub from: Seq<char>,
    pub value: Seq<char>,
}

impl<'a> View for ShareGptMessage<'a> {
    type V = Row;

    open spec fn view(&self) -> Row {
        Row { from: self.from@, value: self.value@ }
    }
}

/// The rows of a conversation.
pub open spec fn rows(messages: Seq<ShareGptMessage<'_>>) -> Seq<Row> {
    Seq::new(messages.len(), |i: int| messages[i]@)
}

/// Configuration knobs for the analyzer.
#[derive(Debug, Clone, Copy)]
pub struct SignalAnalyzerConfig {
    pub baseline_turns: usize,
    pub char_ngram_threshold: Ratio,
    pub token_cosine_threshold: Ratio,
    pub max_message_length: usize,
    /// Maximum number of messages `analyze_sharegpt`/`analyze_openai` process
    /// (tail kept).
    pub max_messages: usize,
    /// Maximum number of messages `analyze_step` scans backwards for the
    /// previous same-role messages or function call.
    pub context_lookback: usize,
}

/// The usual knobs.
pub open spec fn usual_config() -> SignalAnalyzerConfig {
    SignalAnalyzerConfig {
        baseline_turns: 5,
        char_ngram_threshold: Ratio { num: 65, den: 100 },
        token_cosine_threshold: Ratio { num: 60, den: 100 },
        max_message_length: 2000,
        max_messages: 100,
        context_lookback: 200,
    }
}

impl Default for SignalAnalyzerConfig {
    fn default() -> (r: Self)
        ensures
            r == usual_config(),
    {
        SignalAnalyzerConfig {
            baseline_turns: 5,
            char_ngram_threshold: Ratio { num: 65, den: 100 },
            token_cosine_threshold: Ratio { num: 60, den: 100 },
            max_message_length: 2000,
            max_messages: 100,
            context_lookback: 200,
        }
    }
}

impl SignalAnalyzerConfig {
    /// The thresholds of pattern matching.
    pub open spec fn thresholds(self) -> Thresholds {
        Thresholds {
            char_ngram: self.char_ngram_threshold,
            token_cosine: self.token_cosine_threshold,
        }
    }
}

// ---------------------------------------------------------------------------
// Whole conversations
// ---------------------------------------------------------------------------

/// Whether a row is a non-empty message of the user or the assistant.
pub open spec fn is_spoken(r: Row) -> bool {
    (r.from == "human"@ || r.from == "gpt"@) && r.value.len() > 0
}

/// A row as a normalized message.
pub open spec fn tag(r: Row, index: nat, max_length: nat) -> Tagged {
    Tagged { index, role: r.from, text: message_text(r.value, max_length) }
}

/// The non-empty messages of the user and the assistant, normalized, in a
/// conversation whose first row is number `base`.
pub open spec fn spoken(conv: Seq<Row>, base: nat, max_length: nat) -> Seq<Tagged>
    decreases conv.len(),
{
    if conv.len() == 0 {
        Seq::empty()
    } else {
        let rest = spoken(conv.drop_last(), base, max_length);
        if is_spoken(conv.last()) {
            rest.push(tag(conv.last(), (base + conv.len() - 1) as nat, max_length))
        } else {
            rest
        }
    }
}

/// The number of rows with a given role.
pub open spec fn row_turns(conv: Seq<Row>, role: Seq<char>) -> nat
    decreases conv.len(),
{
    if conv.len() == 0 {
        0
    } else {
        row_turns(conv.drop_last(), role) + if conv.last().from == role { 1nat } else { 0 }
    }
}

/// How far back repetition looks, and from which similarity on a repetition
/// is exact or a near duplicate.
pub open spec fn repetitions_in(ms: Seq<Tagged>) -> Seq<SignalFacts> {
    repetition_facts(
        ms,
        ms.len() as int,
        2,
        Ratio { num: 95, den: 100 },
        Ratio { num: 85, den: 100 },
    )
}

/// The metrics of a conversation with the given numbers of turns.
pub open spec fn turn_metrics_of(cfg: SignalAnalyzerConfig, user: nat, assistant: nat) -> TurnMetrics {
    metrics_of(user, assistant, cfg.baseline_turns as nat, Ratio { num: 50, den: 100 })
}

/// The dragging signal at message `index`, where the conversation drags.
pub open spec fn dragging_at(cfg: SignalAnalyzerConfig, m: TurnMetrics, index: nat) -> Seq<
    SignalFacts,
> {
    if m.is_dragging {
        seq![dragging_fact(m, index, cfg.baseline_turns as nat)]
    } else {
        Seq::empty()
    }
}

/// The report made of its groups and metrics, with the quality and the
/// summary that follow from them.
#[verifier::opaque]
pub open spec fn assembled(
    interaction: InteractionFacts,
    execution: ExecutionFacts,
    environment: EnvironmentFacts,
    m: TurnMetrics,
) -> ReportFacts {
    let (quality, score) = assessment(interaction, execution, environment, m.user_turns as nat);
    ReportFacts {
        interaction,
        execution,
        environment,
        overall_quality: quality,
        quality_score: score,
        turn_metrics: m,
        summary: summary_text(m, interaction, execution, environment, quality),
    }
}

/// The metrics of a conversation.
pub open spec fn whole_metrics(cfg: SignalAnalyzerConfig, conv: Seq<Row>) -> TurnMetrics {
    turn_metrics_of(cfg, row_turns(conv, "human"@), row_turns(conv, "gpt"@))
}

/// The stagnation signals of a conversation whose first row is number `base`:
/// dragging, placed at its last row, then repetitions.
pub open spec fn whole_stagnation(cfg: SignalAnalyzerConfig, conv: Seq<Row>, base: nat) -> Seq<
    SignalFacts,
> {
    let last = (base + (if conv.len() == 0 { 0 } else { conv.len() - 1 })) as nat;
    dragging_at(cfg, whole_metrics(cfg, conv), last) + repetitions_in(
        spoken(conv, base, cfg.max_message_length as nat),
    )
}

/// The interaction signals of a conversation whose first row is number `base`.
pub open spec fn whole_interaction(
    cfg: SignalAnalyzerConfig,
    conv: Seq<Row>,
    base: nat,
) -> InteractionFacts {
    let ms = spoken(conv, base, cfg.max_message_length as nat);
    let t = cfg.thresholds();
    let n = ms.len() as int;
    InteractionFacts {
        misalignment: group_of("misalignment"@, misalignment_facts(ms, n, t)),
        stagnation: group_of("stagnation"@, whole_stagnation(cfg, conv, base)),
        disengagement: group_of("disengagement"@, disengagement_facts(ms, n, t)),
        satisfaction: group_of("satisfaction"@, satisfaction_facts(ms, n, t)),
    }
}

/// The execution signals of a conversation whose first row is number `base`.
pub open spec fn whole_execution(conv: Seq<Row>, base: nat) -> ExecutionFacts {
    ExecutionFacts {
        failure: group_of("failure"@, failure_facts(conv, base, conv.len() as int)),
        loops: group_of("loops"@, loop_facts(calls_in(conv, base))),
    }
}

/// The environment signals of a conversation whose first row is number `base`.
pub open spec fn whole_environment(conv: Seq<Row>, base: nat) -> EnvironmentFacts {
    EnvironmentFacts {
        exhaustion: group_of("exhaustion"@, exhaustion_facts(conv, base, conv.len() as int)),
    }
}

/// The report of all of a conversation whose first row is number `base`.
pub open spec fn whole_report(cfg: SignalAnalyzerConfig, conv: Seq<Row>, base: nat) -> ReportFacts {
    assembled(
        whole_interaction(cfg, conv, base),
        whole_execution(conv, base),
        whole_environment(conv, base),
        whole_metrics(cfg, conv),
    )
}

/// The number of rows left out at the beginning of a long conversation.
pub open spec fn cut(cfg: SignalAnalyzerConfig, n: nat) -> int {
    if n > cfg.max_messages { n - cfg.max_messages } else { 0 }
}

/// The report of a conversation: of its last `max_messages` rows, with
/// indices into the whole conversation.
pub open spec fn batch_report(cfg: SignalAnalyzerConfig, conv: Seq<Row>) -> ReportFacts {
    whole_report(cfg, conv.skip(cut(cfg, conv.len())), cut(cfg, conv.len()) as nat)
}

proof fn lemma_turns(msgs: Seq<ShareGptMsg<'_>>, conv: Seq<Row>, role: Seq<char>)
    requires
        msgs.len() == conv.len(),
        forall|i: int| 0 <= i < msgs.len() ==> (#[trigger] msgs[i]).from@ == conv[i].from,
    ensures
        turns_of(msgs, role) == row_turns(conv, role),
    decreases msgs.len(),
{
    if msgs.len() > 0 {
        assert forall|i: int| 0 <= i < msgs.drop_last().len() implies (
        #[trigger] msgs.drop_last()[i]).from@ == conv.drop_last()[i].from by {
            assert(msgs.drop_last()[i] == msgs[i]);
        }
        lemma_turns(msgs.drop_last(), conv.drop_last(), role);
        assert(msgs.last() == msgs[msgs.len() - 1]);
    }
}

fn normalize_rows<'a>(
    messages: &[ShareGptMessage<'a>],
    base: usize,
    max_length: usize,
) -> (r: Vec<TaggedMessage<'a>>)
    requires
        base + messages@.len() <= usize::MAX,
    ensures
        tagged_view(r@) == spoken(rows(messages@), base as nat, max_length as nat),
{
    let ghost all = rows(messages@);
    let mut r: Vec<TaggedMessage<'a>> = Vec::new();
    let mut i: usize = 0;
    assert(tagged_view(r@) =~= Seq::empty());
    while i < messages.len()
        invariant
            i <= messages.len(),
            all == rows(messages@),
            base + messages@.len() <= usize::MAX,
            tagged_view(r@) == spoken(all.take(i as int), base as nat, max_length as nat),
        decreases messages.len() - i,
    {
        let m: ShareGptMessage<'a> = messages[i];
        proof {
            let next = all.take(i + 1);
            assert(next.drop_last() =~= all.take(i as int));
            assert(next.last() == m@);
        }
        if (same_text(m.from, "human") || same_text(m.from, "gpt")) && !m.value.is_empty() {
            let entry: TaggedMessage<'a> = (
                base + i,
                m.from,
                NormalizedMessage::from_text(m.value, max_length),
            );
            assert(tagged_view(r@.push(entry)) =~= tagged_view(r@).push(tagged(entry)));
            r.push(entry);
        }
        i += 1;
    }
    assert(all.take(messages@.len() as int) =~= all);
    r
}

fn role_rows<'a>(messages: &[ShareGptMessage<'a>]) -> (r: Vec<ShareGptMsg<'a>>)
    ensures
        r@.len() == messages@.len(),
        turns_of(r@, "human"@) == row_turns(rows(messages@), "human"@),
        turns_of(r@, "gpt"@) == row_turns(rows(messages@), "gpt"@),
{
    let mut r: Vec<ShareGptMsg<'a>> = Vec::new();
    let mut i: usize = 0;
    while i < messages.len()
        invariant
            i <= messages.len(),
            r@.len() == i,
            forall|j: int| 0 <= j < i ==> (#[trigger] r@[j]).from@ == messages@[j].from@,
        decreases messages.len() - i,
    {
        r.push(ShareGptMsg { from: messages[i].from });
        i += 1;
    }
    proof {
        lemma_turns(r@, rows(messages@), "human"@);
        lemma_turns(r@, rows(messages@), "gpt"@);
    }
    r
}

fn assemble(
    interaction: InteractionSignals,
    execution: ExecutionSignals,
    environment: EnvironmentSignals,
    turn_metrics: TurnMetrics,
) -> (r: SignalReport)
    requires
        turn_metrics.well_formed(),
    ensures
        r@ == assembled(interaction@, execution@, environment@, turn_metrics),
        r.turn_metrics == turn_metrics,
{
    proof {
        reveal(assembled);
    }
    let (overall_quality, quality_score) = assess_quality(
        &interaction,
        &execution,
        &environment,
        turn_metrics.user_turns,
    );
    let summary: String = generate_summary(
        &turn_metrics,
        &interaction,
        &execution,
        &environment,
        overall_quality,
    );
    SignalReport {
        interaction,
        execution,
        environment,
        overall_quality,
        quality_score,
        turn_metrics,
        summary,
    }
}

// ---------------------------------------------------------------------------
// One message at a time
// ---------------------------------------------------------------------------

/// Where the search for context of row `i` ends.
pub open spec fn horizon(cfg: SignalAnalyzerConfig, i: int) -> int {
    if i > cfg.context_lookback { i - cfg.context_lookback } else { 0 }
}

/// The non-empty messages of a role among the rows `lo..hi`, normalized.
pub open spec fn of_role_between(
    conv: Seq<Row>,
    lo: int,
    hi: int,
    role: Seq<char>,
    max_length: nat,
) -> Seq<Tagged>
    decreases hi - lo,
{
    if hi <= lo {
        Seq::empty()
    } else {
        let rest = of_role_between(conv, lo, hi - 1, role, max_length);
        if conv[hi - 1].from == role && conv[hi - 1].value.len() > 0 {
            rest.push(tag(conv[hi - 1], (hi - 1) as nat, max_length))
        } else {
            rest
        }
    }
}

/// The last two messages of a role before row `i`, as far back as is looked.
pub open spec fn recent_of_role(
    cfg: SignalAnalyzerConfig,
    conv: Seq<Row>,
    i: int,
    role: Seq<char>,
) -> Seq<Tagged> {
    last_n(
        of_role_between(conv, horizon(cfg, i), i, role, cfg.max_message_length as nat),
        2,
    )
}

/// The last call among the rows `lo..hi`.
pub open spec fn last_call_between(conv: Seq<Row>, lo: int, hi: int) -> Option<(nat, Seq<char>)>
    decreases hi - lo,
{
    if hi <= lo {
        None
    } else if conv[hi - 1].from == "function_call"@ {
        Some(((hi - 1) as nat, tool_info(conv[hi - 1].value).0))
    } else {
        last_call_between(conv, lo, hi - 1)
    }
}

/// A sequence of at most one element.
pub open spec fn at_most_one(f: Option<SignalFacts>) -> Seq<SignalFacts> {
    match f {
        Some(f) => seq![f],
        None => Seq::empty(),
    }
}

/// The last element, if there is one.
pub open spec fn last_of(s: Seq<Tagged>) -> Option<Tagged> {
    if s.len() == 0 { None } else { Some(s.last()) }
}

/// The signals that are not about dragging.
pub open spec fn without_dragging(s: Seq<SignalFacts>) -> Seq<SignalFacts>
    decreases s.len(),
{
    if s.len() == 0 {
        Seq::empty()
    } else {
        let rest = without_dragging(s.drop_last());
        if s.last().signal_type == SignalType::StagnationDragging {
            rest
        } else {
            rest.push(s.last())
        }
    }
}

/// The interaction signals after row `i`: those before it, and what the row
/// adds; dragging is judged anew.
pub open spec fn stepped_interaction(
    cfg: SignalAnalyzerConfig,
    conv: Seq<Row>,
    i: int,
    prev: InteractionFacts,
    m: TurnMetrics,
) -> InteractionFacts {
    let row = conv[i];
    let t = cfg.thresholds();
    let now = tag(row, i as nat, cfg.max_message_length as nat);
    let earlier = recent_of_role(cfg, conv, i, row.from);
    let by_user = is_spoken(row) && row.from == "human"@;
    let none = Seq::<SignalFacts>::empty();
    InteractionFacts {
        misalignment: group_of(
            "misalignment"@,
            prev.misalignment.signals + if by_user {
                at_most_one(misalignment_of(now, last_of(earlier), t))
            } else {
                none
            },
        ),
        stagnation: group_of(
            "stagnation"@,
            dragging_at(cfg, m, i as nat) + (without_dragging(prev.stagnation.signals) + if is_spoken(
                row,
            ) {
                repetition_after(
                    now,
                    earlier,
                    2,
                    Ratio { num: 95, den: 100 },
                    Ratio { num: 85, den: 100 },
                )
            } else {
                none
            }),
        ),
        disengagement: group_of(
            "disengagement"@,
            prev.disengagement.signals + if by_user { disengagement_at(now, t) } else { none },
        ),
        satisfaction: group_of(
            "satisfaction"@,
            prev.satisfaction.signals + if by_user { satisfaction_at(now, t) } else { none },
        ),
    }
}

/// The execution signals after row `i`; loops are judged anew at each call.
pub open spec fn stepped_execution(
    cfg: SignalAnalyzerConfig,
    conv: Seq<Row>,
    i: int,
    prev: ExecutionFacts,
) -> ExecutionFacts {
    ExecutionFacts {
        failure: group_of(
            "failure"@,
            prev.failure.signals + failure_in(
                conv[i],
                i as nat,
                last_call_between(conv, horizon(cfg, i), i),
            ),
        ),
        loops: if conv[i].from == "function_call"@ {
            group_of("loops"@, loop_facts(calls_in(conv.take(i + 1), 0)))
        } else {
            prev.loops
        },
    }
}

/// The environment signals after row `i`.
pub open spec fn stepped_environment(conv: Seq<Row>, i: int, prev: EnvironmentFacts) -> EnvironmentFacts {
    EnvironmentFacts {
        exhaustion: group_of(
            "exhaustion"@,
            prev.exhaustion.signals + exhaustion_at(conv[i], i as nat),
        ),
    }
}

/// The metrics after row `i`.
pub open spec fn stepped_metrics(
    cfg: SignalAnalyzerConfig,
    row: Row,
    prev: TurnMetrics,
) -> TurnMetrics {
    turn_metrics_of(
        cfg,
        prev.user_turns as nat + if row.from == "human"@ { 1nat } else { 0 },
        prev.assistant_turns as nat + if row.from == "gpt"@ { 1nat } else { 0 },
    )
}

/// The report after row `i`, given the report before it.
#[verifier::opaque]
pub open spec fn stepped_report(
    cfg: SignalAnalyzerConfig,
    conv: Seq<Row>,
    i: int,
    prev: ReportFacts,
) -> ReportFacts {
    let m = stepped_metrics(cfg, conv[i], prev.turn_metrics);
    assembled(
        stepped_interaction(cfg, conv, i, prev.interaction, m),
        stepped_execution(cfg, conv, i, prev.execution),
        stepped_environment(conv, i, prev.environment),
        m,
    )
}

/// The report after the first `n` rows, one step for each.
pub open spec fn report_after(cfg: SignalAnalyzerConfig, conv: Seq<Row>, n: int) -> ReportFacts
    decreases n,
{
    if n <= 0 {
        quiet_report()
    } else {
        stepped_report(cfg, conv, n - 1, report_after(cfg, conv, n - 1))
    }
}

/// Whether the turn counts of a report can still grow by one.
pub open spec fn has_room(m: TurnMetrics) -> bool {
    m.user_turns < usize::MAX && m.assistant_turns < usize::MAX
}

// ---------------------------------------------------------------------------
// Message reports
// ---------------------------------------------------------------------------

/// The signals of a report, the most telling group first.
pub open spec fn by_priority(r: ReportFacts) -> Seq<SignalFacts> {
    r.interaction.disengagement.signals + r.interaction.satisfaction.signals
        + r.interaction.misalignment.signals + r.execution.failure.signals
        + r.execution.loops.signals + r.environment.exhaustion.signals
        + r.interaction.stagnation.signals
}

/// Whether a report holds more signals of a type than the one before.
pub open spec fn grew(t: SignalType, report: ReportFacts, prev: ReportFacts) -> bool {
    type_count(report.all_signals(), t) > type_count(prev.all_signals(), t)
}

/// The first of the signals from `k` on that is located at message `i` and
/// of a type that has grown.
pub open spec fn first_new(
    signals: Seq<SignalFacts>,
    i: nat,
    report: ReportFacts,
    prev: ReportFacts,
    k: int,
) -> Option<SignalFacts>
    decreases signals.len() - k,
{
    if k >= signals.len() {
        None
    } else if signals[k].message_index == i && grew(signals[k].signal_type, report, prev) {
        Some(signals[k])
    } else {
        first_new(signals, i, report, prev, k + 1)
    }
}

/// A dotted name cut at its first dot.
pub open spec fn split_at_dot(name: Seq<char>) -> Option<(Seq<char>, Seq<char>)> {
    match first_index(name, '.') {
        Some(k) => Some((name.take(k), name.skip(k + 1))),
        None => None,
    }
}

/// The verdict on a message: positive for satisfaction, neutral for
/// clarification and for no signal, else negative.
pub open spec fn label_of(parts: Option<(Seq<char>, Seq<char>)>) -> Seq<char> {
    match parts {
        None => "neutral"@,
        Some((_, ty)) => if occurs_in(ty, "satisfaction"@) {
            "positive"@
        } else if occurs_in(ty, "clarification"@) {
            "neutral"@
        } else {
            "negative"@
        },
    }
}

/// The grade of message `i`, given the reports after it and before it.
#[verifier::opaque]
pub open spec fn message_entry(
    row: Row,
    i: nat,
    report: ReportFacts,
    prev: ReportFacts,
) -> MessageReportFacts {
    let hit = first_new(by_priority(report), i, report, prev, 0);
    let parts = match hit {
        Some(s) => split_at_dot(s.signal_type.name()),
        None => None,
    };
    MessageReportFacts {
        role: row.from,
        content: row.value,
        quality: report.overall_quality.name(),
        score: report.quality_score,
        label: label_of(parts),
        signal_class: match parts {
            Some((class, _)) => Some(class),
            None => None,
        },
        signal_type: match parts {
            Some((_, ty)) => Some(ty),
            None => None,
        },
        matched: match hit {
            Some(s) => Some(s.snippet),
            None => None,
        },
    }
}

fn count_in_refs(all: &Vec<&SignalInstance>, t: SignalType) -> (n: usize)
    ensures
        n == type_count(signal_refs(all@), t),
{
    let ghost facts = signal_refs(all@);
    let mut n: usize = 0;
    let mut i: usize = 0;
    while i < all.len()
        invariant
            i <= all.len(),
            n <= i,
            facts == signal_refs(all@),
            n == type_count(facts.take(i as int), t),
        decreases all.len() - i,
    {
        proof {
            let next = facts.take(i + 1);
            assert(next.drop_last() =~= facts.take(i as int));
            assert(next.last() == all@[i as int]@);
        }
        if all[i].signal_type == t {
            n += 1;
        }
        i += 1;
    }
    assert(facts.take(all@.len() as int) =~= facts);
    n
}

/// How many signals of type `t` a report holds.
pub fn signal_count(report: &SignalReport, t: SignalType) -> (n: usize)
    ensures
        n == type_count(report@.all_signals(), t),
{
    count_in_refs(&report.iter_signals(), t)
}

fn find_new<'a>(
    group: &'a SignalGroup,
    i: usize,
    report: &SignalReport,
    prev: &SignalReport,
    Ghost(before): Ghost<Seq<SignalFacts>>,
    Ghost(after): Ghost<Seq<SignalFacts>>,
) -> (r: Option<&'a SignalInstance>)
    requires
        first_new(before + group@.signals + after, i as nat, report@, prev@, 0) == first_new(
            before + group@.signals + after,
            i as nat,
            report@,
            prev@,
            before.len() as int,
        ),
    ensures
        ({
            let all = before + group@.signals + after;
            match r {
                Some(s) => first_new(all, i as nat, report@, prev@, 0) == Some(s@),
                None => first_new(all, i as nat, report@, prev@, 0) == first_new(
                    all,
                    i as nat,
                    report@,
                    prev@,
                    (before.len() + group@.signals.len()) as int,
                ),
            }
        }),
{
    let ghost all = before + group@.signals + after;
    let mut k: usize = 0;
    while k < group.signals.len()
        invariant
            k <= group.signals.len(),
            all == before + group@.signals + after,
            first_new(all, i as nat, report@, prev@, 0) == first_new(
                all,
                i as nat,
                report@,
                prev@,
                before.len() + k,
            ),
        decreases group.signals.len() - k,
    {
        let s: &SignalInstance = &group.signals[k];
        assert(all[before.len() + k] == s@);
        if s.message_index == i && signal_count(report, s.signal_type) > signal_count(
            prev,
            s.signal_type,
        ) {
            return Some(s);
        }
        k += 1;
    }
    None
}

/// The signal that stands for message `i`: the highest-priority one located
/// at this message whose type count grew since the previous message. The
/// count check stops conversation-level signals (e.g. dragging) from being
/// re-flagged on every message once they have fired.
fn top_signal<'a>(report: &'a SignalReport, i: usize, prev: &SignalReport) -> (r: Option<
    &'a SignalInstance,
>)
    ensures
        match r {
            Some(s) => first_new(by_priority(report@), i as nat, report@, prev@, 0) == Some(s@),
            None => first_new(by_priority(report@), i as nat, report@, prev@, 0) is None,
        },
{
    let ghost g1 = report@.interaction.disengagement.signals;
    let ghost g2 = report@.interaction.satisfaction.signals;
    let ghost g3 = report@.interaction.misalignment.signals;
    let ghost g4 = report@.execution.failure.signals;
    let ghost g5 = report@.execution.loops.signals;
    let ghost g6 = report@.environment.exhaustion.signals;
    let ghost g7 = report@.interaction.stagnation.signals;
    let ghost none = Seq::<SignalFacts>::empty();
    let ghost all = by_priority(report@);
    assert(none + g1 + (g2 + g3 + g4 + g5 + g6 + g7) =~= all);
    let r: Option<&'a SignalInstance> = find_new(
        &report.interaction.disengagement,
        i,
        report,
        prev,
        Ghost(none),
        Ghost(g2 + g3 + g4 + g5 + g6 + g7),
    );
    if r.is_some() {
        return r;
    }
    assert(g1 + g2 + (g3 + g4 + g5 + g6 + g7) =~= all);
    let r: Option<&'a SignalInstance> = find_new(
        &report.interaction.satisfaction,
        i,
        report,
        prev,
        Ghost(g1),
        Ghost(g3 + g4 + g5 + g6 + g7),
    );
    if r.is_some() {
        return r;
    }
    assert((g1 + g2) + g3 + (g4 + g5 + g6 + g7) =~= all);
    let r: Option<&'a SignalInstance> = find_new(
        &report.interaction.misalignment,
        i,
        report,
        prev,
        Ghost(g1 + g2),
        Ghost(g4 + g5 + g6 + g7),
    );
    if r.is_some() {
        return r;
    }
    assert((g1 + g2 + g3) + g4 + (g5 + g6 + g7) =~= all);
    let r: Option<&'a SignalInstance> = find_new(
        &report.execution.failure,
        i,
        report,
        prev,
        Ghost(g1 + g2 + g3),
        Ghost(g5 + g6 + g7),
    );
    if r.is_some() {
        return r;
    }
    assert((g1 + g2 + g3 + g4) + g5 + (g6 + g7) =~= all);
    let r: Option<&'a SignalInstance> = find_new(
        &report.execution.loops,
        i,
        report,
        prev,
        Ghost(g1 + g2 + g3 + g4),
        Ghost(g6 + g7),
    );
    if r.is_some() {
        return r;
    }
    assert((g1 + g2 + g3 + g4 + g5) + g6 + g7 =~= all);
    let r: Option<&'a SignalInstance> = find_new(
        &report.environment.exhaustion,
        i,
        report,
        prev,
        Ghost(g1 + g2 + g3 + g4 + g5),
        Ghost(g7),
    );
    if r.is_some() {
        return r;
    }
    assert((g1 + g2 + g3 + g4 + g5 + g6) + g7 + none =~= all);
    find_new(
        &report.interaction.stagnation,
        i,
        report,
        prev,
        Ghost(g1 + g2 + g3 + g4 + g5 + g6),
        Ghost(none),
    )
}

fn split_name(name: &str) -> (r: Option<(String, String)>)
    ensures
        match r {
            Some((class, ty)) => split_at_dot(name@) == Some((class@, ty@)),
            None => split_at_dot(name@) is None,
        },
{
    let chars: Vec<char> = chars_of(name);
    match find_char(&chars, '.') {
        Some(k) => {
            let class: String = text_of(&chars, 0, k);
            let ty: String = text_of(&chars, k + 1, chars.len());
            assert(class@ =~= name@.take(k as int));
            assert(ty@ =~= name@.skip(k + 1));
            Some((class, ty))
        },
        None => None,
    }
}

/// Build the message-level report for message `i`.
pub fn message_report(
    msg: ShareGptMessage<'_>,
    i: usize,
    report: &SignalReport,
    prev: &SignalReport,
) -> (r: MessageReport)
    ensures
        r@ == message_entry(msg@, i as nat, report@, prev@),
{
    proof {
        reveal(message_entry);
    }
    let hit: Option<&SignalInstance> = top_signal(report, i, prev);
    let parts: Option<(String, String)> = match hit {
        Some(s) => split_name(s.signal_type.as_str()),
        None => None,
    };
    let matched: Option<String> = match hit {
        Some(s) => Some(s.snippet.clone()),
        None => None,
    };
    let label: &str = match &parts {
        None => "neutral",
        Some((_, ty)) => if contains(ty.as_str(), "satisfaction") {
            "positive"
        } else if contains(ty.as_str(), "clarification") {
            "neutral"
        } else {
            "negative"
        },
    };
    let (signal_class, signal_type) = match parts {
        Some((class, ty)) => (Some(class), Some(ty)),
        None => (None, None),
    };
    MessageReport {
        role: msg.from.to_owned(),
        content: msg.value.to_owned(),
        quality: report.overall_quality.as_str().to_owned(),
        score: report.quality_score,
        label: label.to_owned(),
        signal_class,
        signal_type,
        matched,
    }
}

fn drop_dragging(signals: &Vec<SignalInstance>) -> (r: Vec<SignalInstance>)
    ensures
        signals_view(r@) == without_dragging(signals_view(signals@)),
{
    let ghost all = signals_view(signals@);
    let mut r: Vec<SignalInstance> = Vec::new();
    let mut i: usize = 0;
    assert(signals_view(r@) =~= Seq::empty());
    while i < signals.len()
        invariant
            i <= signals.len(),
            all == signals_view(signals@),
            signals_view(r@) == without_dragging(all.take(i as int)),
        decreases signals.len() - i,
    {
        proof {
            let next = all.take(i + 1);
            assert(next.drop_last() =~= all.take(i as int));
            assert(next.last() == signals@[i as int]@);
        }
        if signals[i].signal_type != SignalType::StagnationDragging {
            let s: SignalInstance = signals[i].clone();
            proof {
                lemma_signals_push(r@, s);
            }
            r.push(s);
        }
        i += 1;
    }
    assert(all.take(signals@.len() as int) =~= all);
    r
}

/// Top-level analyzer.
pub struct SignalAnalyzer {
    pub cfg: SignalAnalyzerConfig,
}

impl Default for SignalAnalyzer {
    fn default() -> (r: Self)
        ensures
            r.cfg == (SignalAnalyzerConfig {
                baseline_turns: 5,
                char_ngram_threshold: Ratio { num: 65, den: 100 },
                token_cosine_threshold: Ratio { num: 60, den: 100 },
                max_message_length: 2000,
                max_messages: 100,
                context_lookback: 200,
            }),
    {
        SignalAnalyzer::new(SignalAnalyzerConfig::default())
    }
}

impl SignalAnalyzer {
    /// An analyzer with the given configuration.
    pub fn new(cfg: SignalAnalyzerConfig) -> (r: Self)
        ensures
            r.cfg == cfg,
    {
        SignalAnalyzer { cfg }
    }

    /// Run the full multi-layer analysis on a ShareGPT-shaped conversation.
    pub fn analyze_sharegpt(&self, messages: &[ShareGptMessage<'_>]) -> (r: SignalReport)
        ensures
            r@ == batch_report(self.cfg, rows(messages@)),
    {
        let n: usize = messages.len();
        let offset: usize = if n > self.cfg.max_messages { n - self.cfg.max_messages } else { 0 };
        let slice: &[ShareGptMessage<'_>] = slice_subrange(messages, offset, n);
        let ghost conv = rows(slice@);
        proof {
            assert(conv =~= rows(messages@).skip(offset as int));
            assert(slice@.len() == n - offset);
        }
        let normalized: Vec<TaggedMessage<'_>> = normalize_rows(
            slice,
            offset,
            self.cfg.max_message_length,
        );
        let ghost ms = tagged_view(normalized@);
        assert(ms.len() == normalized@.len());
        let misalignment: SignalGroup = analyze_misalignment(
            &normalized,
            self.cfg.char_ngram_threshold,
            self.cfg.token_cosine_threshold,
        );
        let roles: Vec<ShareGptMsg<'_>> = role_rows(slice);
        let (_, turn_metrics) = analyze_dragging(
            &roles,
            self.cfg.baseline_turns,
            Ratio::new(50, 100),
        );
        let mut stagnation_signals: Vec<SignalInstance> = Vec::new();
        if turn_metrics.is_dragging {
            let last: usize = offset + slice.len().saturating_sub(1);
            stagnation_signals.push(
                dragging_signal(&turn_metrics, last, self.cfg.baseline_turns),
            );
        }
        let repetition: SignalGroup = analyze_repetition(
            &normalized,
            2,
            Ratio::new(95, 100),
            Ratio::new(85, 100),
        );
        extend_signals(&mut stagnation_signals, &repetition.signals);
        let stagnation: SignalGroup = make_group("stagnation", stagnation_signals);
        assert(stagnation@.signals =~= whole_stagnation(self.cfg, conv, offset as nat));
        let disengagement: SignalGroup = analyze_disengagement(
            &normalized,
            self.cfg.char_ngram_threshold,
            self.cfg.token_cosine_threshold,
        );
        let satisfaction: SignalGroup = analyze_satisfaction(
            &normalized,
            self.cfg.char_ngram_threshold,
            self.cfg.token_cosine_threshold,
        );
        let failure: SignalGroup = analyze_failure_from(slice, offset);
        let loops: SignalGroup = analyze_loops_from(slice, offset);
        let exhaustion: SignalGroup = analyze_exhaustion_from(slice, offset);
        assemble(
            InteractionSignals { misalignment, stagnation, disengagement, satisfaction },
            ExecutionSignals { failure, loops },
            EnvironmentSignals { exhaustion },
            turn_metrics,
        )
    }

    /// Convenience entry point: convert chat `Message`s into the ShareGPT
    /// format the detectors operate on, then run analysis.
    pub fn analyze_openai(&self, messages: &[Message]) -> (r: SignalReport)
        ensures
            r@ == batch_report(self.cfg, sharegpt_rows(messages@)),
    {
        let owned: Vec<(String, String)> = messages_to_sharegpt(messages);
        let mut view: Vec<ShareGptMessage<'_>> = Vec::new();
        let mut i: usize = 0;
        while i < owned.len()
            invariant
                i <= owned.len(),
                view@.len() == i,
                forall|j: int| 0 <= j < i ==> (#[trigger] view@[j])@ == pair_row(owned@[j]),
            decreases owned.len() - i,
        {
            view.push(ShareGptMessage { from: owned[i].0.as_str(), value: owned[i].1.as_str() });
            i += 1;
        }
        assert(rows(view@) =~= pair_rows(owned@));
        self.analyze_sharegpt(&view)
    }

    // ------------------------------------------------------------------
    // Incremental analysis
    // ------------------------------------------------------------------

    /// Analyze the newest message of a conversation incrementally.
    ///
    /// Given the conversation so far and the report returned for the
    /// previous message, detects the signals contributed by the last
    /// message, merges them into the previous report, and re-assesses
    /// quality.
    ///
    /// `messages` is the conversation so far (newest message last);
    /// `prev_report` is the report returned by the previous call, or `None`
    /// for the first message.
    pub fn analyze_step(
        &self,
        messages: &[ShareGptMessage<'_>],
        prev_report: Option<&SignalReport>,
    ) -> (r: (MessageReport, SignalReport))
        requires
            messages@.len() > 0,
            prev_report is Some ==> has_room(prev_report->0.turn_metrics),
        ensures
            ({
                let conv = rows(messages@);
                let last = messages@.len() - 1;
                let before = prev_facts(prev_report);
                &&& r.1@ == stepped_report(self.cfg, conv, last, before)
                &&& r.0@ == message_entry(conv[last], last as nat, r.1@, before)
            }),
    {
        self.step(messages, messages.len() - 1, prev_report)
    }

    /// Analyze a conversation and return message-level reports, one per
    /// message, each with the cumulative quality assessment from the start
    /// of the conversation up to that message. Built on `analyze_step`.
    pub fn get_message_reports(&self, messages: &[ShareGptMessage<'_>]) -> (r: Vec<MessageReport>)
        ensures
            r@.len() == messages@.len(),
            forall|i: int|
                0 <= i < messages@.len() ==> (#[trigger] r@[i])@ == message_entry(
                    rows(messages@)[i],
                    i as nat,
                    report_after(self.cfg, rows(messages@), i + 1),
                    report_after(self.cfg, rows(messages@), i),
                ),
    {
        let ghost conv = rows(messages@);
        let mut reports: Vec<MessageReport> = Vec::new();
        let mut prev: Option<SignalReport> = None;
        let mut i: usize = 0;
        while i < messages.len()
            invariant
                i <= messages.len(),
                conv == rows(messages@),
                reports@.len() == i,
                prev is None <==> i == 0,
                prev is Some ==> prev->0@ == report_after(self.cfg, conv, i as int)
                    && prev->0.turn_metrics.user_turns <= i
                    && prev->0.turn_metrics.assistant_turns <= i,
                forall|j: int|
                    0 <= j < i ==> (#[trigger] reports@[j])@ == message_entry(
                        conv[j],
                        j as nat,
                        report_after(self.cfg, conv, j + 1),
                        report_after(self.cfg, conv, j),
                    ),
            decreases messages.len() - i,
        {
            let (entry, report) = self.step(messages, i, prev.as_ref());
            reports.push(entry);
            prev = Some(report);
            i += 1;
        }
        reports
    }

    /// Analyze message `i` given the report for messages `0..i`.
    pub fn step(
        &self,
        messages: &[ShareGptMessage<'_>],
        i: usize,
        prev_report: Option<&SignalReport>,
    ) -> (r: (MessageReport, SignalReport))
        requires
            i < messages@.len(),
            prev_report is Some ==> has_room(prev_report->0.turn_metrics),
        ensures
            ({
                let conv = rows(messages@);
                let before = prev_facts(prev_report);
                &&& r.1@ == stepped_report(self.cfg, conv, i as int, before)
                &&& r.0@ == message_entry(conv[i as int], i as nat, r.1@, before)
                &&& r.1.turn_metrics.user_turns <= before.turn_metrics.user_turns + 1
                &&& r.1.turn_metrics.assistant_turns <= before.turn_metrics.assistant_turns + 1
            }),
    {
        proof {
            reveal(stepped_report);
        }
        let prev: SignalReport = match prev_report {
            Some(p) => p.clone(),
            None => SignalReport::default(),
        };
        let msg: ShareGptMessage<'_> = messages[i];
        let ghost conv = rows(messages@);
        assert(conv[i as int] == msg@);
        let human: bool = same_text(msg.from, "human");
        let gpt: bool = same_text(msg.from, "gpt");
        let user_turns: usize = prev.turn_metrics.user_turns + if human { 1 } else { 0 };
        let assistant_turns: usize = prev.turn_metrics.assistant_turns + if gpt { 1 } else { 0 };
        let turn_metrics: TurnMetrics = compute_turn_metrics(
            user_turns,
            assistant_turns,
            self.cfg.baseline_turns,
            Ratio::new(50, 100),
        );
        let interaction: InteractionSignals = self.step_interaction(
            messages,
            i,
            &prev.interaction,
            &turn_metrics,
        );
        let execution: ExecutionSignals = self.step_execution(messages, i, &prev.execution);
        let environment: EnvironmentSignals = self.step_environment(messages, i, &prev.environment);
        let report: SignalReport = assemble(interaction, execution, environment, turn_metrics);
        let entry: MessageReport = message_report(msg, i, &report, &prev);
        (entry, report)
    }

    fn step_interaction(
        &self,
        messages: &[ShareGptMessage<'_>],
        i: usize,
        prev: &InteractionSignals,
        turn_metrics: &TurnMetrics,
    ) -> (r: InteractionSignals)
        requires
            i < messages@.len(),
            turn_metrics.well_formed(),
        ensures
            r@ == stepped_interaction(self.cfg, rows(messages@), i as int, prev@, *turn_metrics),
    {
        let ghost conv = rows(messages@);
        let msg: ShareGptMessage<'_> = messages[i];
        assert(conv[i as int] == msg@);
        let t: Thresholds = Thresholds {
            char_ngram: self.cfg.char_ngram_threshold,
            token_cosine: self.cfg.token_cosine_threshold,
        };
        let mut misalignment: Vec<SignalInstance> = clone_signals(&prev.misalignment.signals);
        let mut disengagement: Vec<SignalInstance> = clone_signals(&prev.disengagement.signals);
        let mut satisfaction: Vec<SignalInstance> = clone_signals(&prev.satisfaction.signals);
        let mut repetition: Vec<SignalInstance> = drop_dragging(&prev.stagnation.signals);
        let human: bool = same_text(msg.from, "human");
        let spoken: bool = (human || same_text(msg.from, "gpt")) && !msg.value.is_empty();
        if spoken {
            let now: TaggedMessage<'_> = (
                i,
                msg.from,
                NormalizedMessage::from_text(msg.value, self.cfg.max_message_length),
            );
            let earlier: Vec<TaggedMessage<'_>> = self.previous_same_role(messages, i, msg.from);
            assert(tagged_view(earlier@).len() == earlier@.len());
            if human {
                let last: Option<&TaggedMessage<'_>> = if earlier.len() > 0 {
                    Some(&earlier[earlier.len() - 1])
                } else {
                    None
                };
                let ghost m0 = signals_view(misalignment@);
                if let Some(s) = misalignment_signal(&now, last, t) {
                    proof {
                        lemma_signals_push(misalignment@, s);
                        assert(m0.push(s@) =~= m0 + seq![s@]);
                    }
                    misalignment.push(s);
                } else {
                    assert(m0 =~= m0 + Seq::<SignalFacts>::empty());
                }
                let d: Vec<SignalInstance> = disengagement_signals(&now, t);
                extend_signals(&mut disengagement, &d);
                let ghost s0 = signals_view(satisfaction@);
                if let Some(s) = satisfaction_signal(&now, t) {
                    proof {
                        lemma_signals_push(satisfaction@, s);
                        assert(s0.push(s@) =~= s0 + seq![s@]);
                    }
                    satisfaction.push(s);
                } else {
                    assert(s0 =~= s0 + Seq::<SignalFacts>::empty());
                }
            }
            let found: Vec<SignalInstance> = repetition_signals(
                &now,
                &earlier,
                2,
                Ratio::new(95, 100),
                Ratio::new(85, 100),
            );
            extend_signals(&mut repetition, &found);
        }
        let mut stagnation: Vec<SignalInstance> = Vec::new();
        if turn_metrics.is_dragging {
            stagnation.push(dragging_signal(turn_metrics, i, self.cfg.baseline_turns));
        }
        assert(signals_view(stagnation@) =~= dragging_at(self.cfg, *turn_metrics, i as nat));
        extend_signals(&mut stagnation, &repetition);
        let ghost goal = stepped_interaction(self.cfg, conv, i as int, prev@, *turn_metrics);
        proof {
            assert(signals_view(misalignment@) =~= goal.misalignment.signals);
            assert(signals_view(disengagement@) =~= goal.disengagement.signals);
            assert(signals_view(satisfaction@) =~= goal.satisfaction.signals);
            assert(signals_view(stagnation@) =~= goal.stagnation.signals);
        }
        InteractionSignals {
            misalignment: make_group("misalignment", misalignment),
            stagnation: make_group("stagnation", stagnation),
            disengagement: make_group("disengagement", disengagement),
            satisfaction: make_group("satisfaction", satisfaction),
        }
    }

    fn step_execution(
        &self,
        messages: &[ShareGptMessage<'_>],
        i: usize,
        prev: &ExecutionSignals,
    ) -> (r: ExecutionSignals)
        requires
            i < messages@.len(),
        ensures
            r@ == stepped_execution(self.cfg, rows(messages@), i as int, prev@),
    {
        let ghost conv = rows(messages@);
        let msg: ShareGptMessage<'_> = messages[i];
        assert(conv[i as int] == msg@);
        let mut failure: Vec<SignalInstance> = clone_signals(&prev.failure.signals);
        let ghost f0 = signals_view(failure@);
        if same_text(msg.from, "observation") {
            let call: Option<(usize, String)> = self.last_call(messages, i);
            if let Some(s) = observe_failure(msg.value, i, &call) {
                proof {
                    lemma_signals_push(failure@, s);
                    assert(f0.push(s@) =~= f0 + seq![s@]);
                }
                failure.push(s);
            } else {
                assert(f0 =~= f0 + Seq::<SignalFacts>::empty());
            }
        } else {
            assert(f0 =~= f0 + Seq::<SignalFacts>::empty());
        }
        let loops: SignalGroup = if same_text(msg.from, "function_call") {
            let head: &[ShareGptMessage<'_>] = slice_subrange(messages, 0, i + 1);
            assert(rows(head@) =~= conv.take(i + 1));
            analyze_loops(head)
        } else {
            prev.loops.clone()
        };
        ExecutionSignals { failure: make_group("failure", failure), loops }
    }

    fn step_environment(
        &self,
        messages: &[ShareGptMessage<'_>],
        i: usize,
        prev: &EnvironmentSignals,
    ) -> (r: EnvironmentSignals)
        requires
            i < messages@.len(),
        ensures
            r@ == stepped_environment(rows(messages@), i as int, prev@),
    {
        let msg: ShareGptMessage<'_> = messages[i];
        assert(rows(messages@)[i as int] == msg@);
        let mut exhaustion: Vec<SignalInstance> = clone_signals(&prev.exhaustion.signals);
        let ghost e0 = signals_view(exhaustion@);
        if same_text(msg.from, "observation") {
            if let Some(s) = observe_exhaustion(msg.value, i) {
                proof {
                    lemma_signals_push(exhaustion@, s);
                    assert(e0.push(s@) =~= e0 + seq![s@]);
                }
                exhaustion.push(s);
            } else {
                assert(e0 =~= e0 + Seq::<SignalFacts>::empty());
            }
        } else {
            assert(e0 =~= e0 + Seq::<SignalFacts>::empty());
        }
        EnvironmentSignals { exhaustion: make_group("exhaustion", exhaustion) }
    }

    fn horizon_of(&self, i: usize) -> (r: usize)
        ensures
            r == horizon(self.cfg, i as int),
            r <= i,
    {
        i.saturating_sub(self.cfg.context_lookback)
    }

    /// The last call before message `i`, scanning back at most
    /// `context_lookback` messages.
    fn last_call(&self, messages: &[ShareGptMessage<'_>], i: usize) -> (r: Option<(usize, String)>)
        requires
            i <= messages@.len(),
        ensures
            ({
                let found = last_call_between(rows(messages@), horizon(self.cfg, i as int), i as int);
                match r {
                    Some(c) => found == Some((c.0 as nat, c.1@)),
                    None => found is None,
                }
            }),
    {
        let ghost conv = rows(messages@);
        let lo: usize = self.horizon_of(i);
        let mut j: usize = i;
        while j > lo
            invariant
                lo <= j <= i <= messages@.len(),
                lo == horizon(self.cfg, i as int),
                conv == rows(messages@),
                last_call_between(conv, lo as int, i as int) == last_call_between(
                    conv,
                    lo as int,
                    j as int,
                ),
            decreases j,
        {
            let m: ShareGptMessage<'_> = messages[j - 1];
            assert(conv[j - 1] == m@);
            if same_text(m.from, "function_call") {
                let info: (String, String) = extract_tool_info(m.value);
                return Some((j - 1, info.0));
            }
            j -= 1;
        }
        None
    }

    /// Last two non-empty messages of `role` before `i`, oldest first,
    /// scanning back at most `context_lookback` messages.
    fn previous_same_role<'a>(
        &self,
        messages: &[ShareGptMessage<'a>],
        i: usize,
        role: &'a str,
    ) -> (r: Vec<TaggedMessage<'a>>)
        requires
            i <= messages@.len(),
        ensures
            tagged_view(r@) == recent_of_role(self.cfg, rows(messages@), i as int, role@),
    {
        let ghost conv = rows(messages@);
        let ghost max = self.cfg.max_message_length as nat;
        let lo: usize = self.horizon_of(i);
        let ghost goal = of_role_between(conv, lo as int, i as int, role@, max);
        let mut found: Vec<TaggedMessage<'a>> = Vec::new();
        let mut j: usize = i;
        assert(tagged_view(found@) =~= Seq::empty());
        assert(goal =~= of_role_between(conv, lo as int, j as int, role@, max) + tagged_view(found@));
        while j > lo && found.len() < 2
            invariant
                lo <= j <= i <= messages@.len(),
                conv == rows(messages@),
                max == self.cfg.max_message_length,
                found@.len() <= 2,
                goal == of_role_between(conv, lo as int, j as int, role@, max) + tagged_view(found@),
            decreases j,
        {
            let m: ShareGptMessage<'a> = messages[j - 1];
            let ghost rest = of_role_between(conv, lo as int, j - 1, role@, max);
            assert(conv[j - 1] == m@);
            if same_text(m.from, role) && !m.value.is_empty() {
                let entry: TaggedMessage<'a> = (
                    j - 1,
                    role,
                    NormalizedMessage::from_text(m.value, self.cfg.max_message_length),
                );
                proof {
                    assert(tagged_view(found@.insert(0, entry)) =~= seq![tagged(entry)]
                        + tagged_view(found@));
                    assert(rest.push(tagged(entry)) + tagged_view(found@) =~= rest + (seq![
                        tagged(entry),
                    ] + tagged_view(found@)));
                }
                found.insert(0, entry);
            }
            j -= 1;
        }
        proof {
            assert(tagged_view(found@).len() == found@.len());
            assert(tagged_view(found@) =~= last_n(goal, 2));
        }
        found
    }
}

/// What an optional report says; nothing yet where there is none.
pub open spec fn prev_facts(prev: Option<&SignalReport>) -> ReportFacts {
    match prev {
        Some(p) => p@,
        None => quiet_report(),
    }
}

// ---------------------------------------------------------------------------
// Chat messages
// ---------------------------------------------------------------------------

/// A pair of role and value as a row.
pub open spec fn pair_row(p: (String, String)) -> Row {
    Row { from: p.0@, value: p.1@ }
}

/// Pairs of role and value as rows.
pub open spec fn pair_rows(v: Seq<(String, String)>) -> Seq<Row> {
    Seq::new(v.len(), |i: int| pair_row(v[i]))
}

/// The row of a tool call: its name and arguments as a JSON object.
pub open spec fn call_row(c: ToolCallRequest) -> Row {
    Row {
        from: "function_call"@,
        value: json_object_text(
            seq![("name"@, c.function.name@), ("arguments"@, c.function.arguments@)],
        ),
    }
}

/// The rows of tool calls, in order.
pub open spec fn call_rows(calls: Seq<ToolCallRequest>) -> Seq<Row> {
    Seq::new(calls.len(), |i: int| call_row(calls[i]))
}

/// The rows of one chat message: the user's and a tool's text, the
/// assistant's text if there is any followed by its tool calls, and nothing
/// for instructions.
pub open spec fn message_rows(m: Message) -> Seq<Row> {
    match m.role {
        Role::User => seq![Row { from: "human"@, value: message_body(m) }],
        Role::Assistant => (if message_body(m).len() > 0 {
            seq![Row { from: "gpt"@, value: message_body(m) }]
        } else {
            Seq::empty()
        }) + (match m.tool_calls {
            Some(calls) => call_rows(calls@),
            None => Seq::empty(),
        }),
        Role::Tool => seq![Row { from: "observation"@, value: message_body(m) }],
        Role::System | Role::Developer => Seq::empty(),
    }
}

/// The rows of a chat, in order.
pub open spec fn sharegpt_rows(messages: Seq<Message>) -> Seq<Row>
    decreases messages.len(),
{
    if messages.len() == 0 {
        Seq::empty()
    } else {
        sharegpt_rows(messages.drop_last()) + message_rows(messages.last())
    }
}

fn append_calls(out: &mut Vec<(String, String)>, calls: &Vec<ToolCallRequest>)
    ensures
        pair_rows(final(out)@) == pair_rows(old(out)@) + call_rows(calls@),
{
    let ghost before = pair_rows(out@);
    let mut i: usize = 0;
    assert(pair_rows(out@) =~= before + call_rows(calls@).take(0));
    while i < calls.len()
        invariant
            i <= calls.len(),
            pair_rows(out@) == before + call_rows(calls@).take(i as int),
        decreases calls.len() - i,
    {
        let mut members: Vec<(String, String)> = Vec::new();
        members.push(("name".to_owned(), calls[i].function.name.clone()));
        members.push(("arguments".to_owned(), calls[i].function.arguments.clone()));
        assert(members_view(members@) =~= seq![
            ("name"@, calls@[i as int].function.name@),
            ("arguments"@, calls@[i as int].function.arguments@),
        ]);
        let payload: String = object_text(members);
        let entry: (String, String) = ("function_call".to_owned(), payload);
        proof {
            assert(pair_rows(out@.push(entry)) =~= pair_rows(out@).push(pair_row(entry)));
            assert(pair_row(entry) == call_row(calls@[i as int]));
            assert(call_rows(calls@).take(i + 1) =~= call_rows(calls@).take(i as int).push(
                call_row(calls@[i as int]),
            ));
            assert(before + call_rows(calls@).take(i as int).push(call_row(calls@[i as int]))
                =~= (before + call_rows(calls@).take(i as int)).push(call_row(calls@[i as int])));
        }
        out.push(entry);
        i += 1;
    }
    assert(call_rows(calls@).take(calls@.len() as int) =~= call_rows(calls@));
}

/// Convert chat messages to a sequence of ShareGPT `(role, value)` pairs.
///
/// Mapping (preserves original message order; tool calls are emitted as a
/// separate `function_call` row immediately after the assistant text):
///
/// - `User` -> `("human", text)`
/// - `Assistant` -> `("gpt", text)`, then one `("function_call", json)` per tool call
/// - `Tool` -> `("observation", text)`
/// - `System` / `Developer` -> dropped (not analyzed)
pub fn messages_to_sharegpt(messages: &[Message]) -> (r: Vec<(String, String)>)
    ensures
        pair_rows(r@) == sharegpt_rows(messages@),
{
    let mut out: Vec<(String, String)> = Vec::new();
    let mut i: usize = 0;
    assert(pair_rows(out@) =~= Seq::empty());
    while i < messages.len()
        invariant
            i <= messages.len(),
            pair_rows(out@) == sharegpt_rows(messages@.take(i as int)),
        decreases messages.len() - i,
    {
        let m: &Message = &messages[i];
        let ghost before = pair_rows(out@);
        proof {
            let next = messages@.take(i + 1);
            assert(next.drop_last() =~= messages@.take(i as int));
            assert(next.last() == *m);
        }
        match m.role {
            Role::User => {
                let entry: (String, String) = ("human".to_owned(), m.extract_text());
                assert(pair_rows(out@.push(entry)) =~= before + seq![pair_row(entry)]);
                out.push(entry);
            },
            Role::Assistant => {
                let text: String = m.extract_text();
                if !text.as_str().is_empty() {
                    let entry: (String, String) = ("gpt".to_owned(), text);
                    assert(pair_rows(out@.push(entry)) =~= before + seq![pair_row(entry)]);
                    out.push(entry);
                } else {
                    assert(before =~= before + Seq::<Row>::empty());
                }
                let ghost middle = pair_rows(out@);
                if let Some(calls) = &m.tool_calls {
                    append_calls(&mut out, calls);
                }
                assert(pair_rows(out@) =~= before + message_rows(*m));
            },
            Role::Tool => {
                let entry: (String, String) = ("observation".to_owned(), m.extract_text());
                assert(pair_rows(out@.push(entry)) =~= before + seq![pair_row(entry)]);
                out.push(entry);
            },
            Role::System | Role::Developer => {
                assert(before =~= before + message_rows(*m));
            },
        }
        i += 1;
    }
    assert(messages@.take(messages@.len() as int) =~= messages@);
    out
}

} // verus!
