//! What holds of every report on a conversation.

use crate::chat::{message_body, Message, Role};
use crate::natural::Ratio;
use crate::signals::analyzer::{
    batch_report, by_priority, first_new, label_of, message_entry, row_turns, sharegpt_rows,
    spoken, split_at_dot, usual_config, whole_report, Row, SignalAnalyzerConfig,
};
use crate::signals::environment::exhaustion::exhaustion_facts;
use crate::signals::execution::failure::failure_facts;
use crate::signals::execution::loops::{calls_in, loop_facts};
use crate::signals::interaction::disengagement::disengagement_facts;
use crate::signals::interaction::messages::Thresholds;
use crate::signals::interaction::misalignment::misalignment_facts;
use crate::signals::interaction::satisfaction::satisfaction_facts;
use crate::signals::interaction::stagnation::{dragging_fact, repetition_facts};
use crate::signals::quality::{assessment, type_count};
use crate::signals::schemas::{
    identifier_is_hierarchical, ReportFacts, SignalFacts, SignalType,
};
use crate::text::{lemma_first_index, occurs_in, stands_at};
use vstd::prelude::*;

verus! {

/// The grade of a report is that of its own signals, and its turns are those
/// of the users and the assistant in it.
pub proof fn report_is_graded_by_its_signals(
    cfg: SignalAnalyzerConfig,
    conv: Seq<Row>,
    base: nat,
)
    requires
        conv.len() <= usize::MAX,
    ensures
        ({
            let r = whole_report(cfg, conv, base);
            let grade = assessment(
                r.interaction,
                r.execution,
                r.environment,
                r.turn_metrics.user_turns as nat,
            );
            &&& r.overall_quality == grade.0
            &&& r.quality_score == grade.1
            &&& r.turn_metrics.user_turns == row_turns(conv, "human"@)
            &&& r.turn_metrics.assistant_turns == row_turns(conv, "gpt"@)
            &&& r.turn_metrics.is_dragging == (row_turns(conv, "human"@) > cfg.baseline_turns + 4)
        }),
{
    reveal(crate::signals::analyzer::assembled);
    lemma_turns_bound(conv, "human"@);
    lemma_turns_bound(conv, "gpt"@);
    crate::signals::detection_laws::long_conversations_drag(
        row_turns(conv, "human"@),
        row_turns(conv, "gpt"@),
        cfg.baseline_turns as nat,
    );
}

proof fn lemma_turns_bound(conv: Seq<Row>, role: Seq<char>)
    ensures
        row_turns(conv, role) <= conv.len(),
    decreases conv.len(),
{
    if conv.len() > 0 {
        lemma_turns_bound(conv.drop_last(), role);
    }
}

/// A row counts as a turn of its role, and of no other.
pub proof fn turns_are_counted_by_role(conv: Seq<Row>, row: Row, role: Seq<char>)
    ensures
        row_turns(conv.push(row), role) == row_turns(conv, role) + (if row.from == role {
            1int
        } else {
            0
        }),
        row_turns(Seq::empty(), role) == 0,
{
    assert(conv.push(row).drop_last() =~= conv);
}

/// What users and the assistant say is looked at, but nothing that is empty
/// or said by others; each message under its number in the conversation.
pub proof fn only_what_is_said_is_read(conv: Seq<Row>, row: Row, base: nat, max_length: nat)
    ensures
        ({
            let before = spoken(conv, base, max_length);
            let after = spoken(conv.push(row), base, max_length);
            if (row.from == "human"@ || row.from == "gpt"@) && row.value.len() > 0 {
                &&& after.len() == before.len() + 1
                &&& after.drop_last() == before
                &&& after.last().index == base + conv.len()
                &&& after.last().role == row.from
                &&& after.last().text == crate::signals::text_processing::message_text(
                    row.value,
                    max_length,
                )
            } else {
                after == before
            }
        }),
        spoken(Seq::empty(), base, max_length).len() == 0,
{
    assert(conv.push(row).drop_last() =~= conv);
    let before = spoken(conv, base, max_length);
    let after = spoken(conv.push(row), base, max_length);
    if (row.from == "human"@ || row.from == "gpt"@) && row.value.len() > 0 {
        assert(after.drop_last() =~= before);
    }
}

/// Of a conversation that is too long only the last messages count: it is
/// graded as any other of the same length that ends in the same messages. One
/// that is short enough is graded as a whole.
pub proof fn only_the_last_messages_count(
    cfg: SignalAnalyzerConfig,
    old: Seq<Row>,
    other: Seq<Row>,
    recent: Seq<Row>,
    short: Seq<Row>,
)
    requires
        old.len() == other.len(),
        recent.len() == cfg.max_messages,
        short.len() <= cfg.max_messages,
    ensures
        batch_report(cfg, old + recent) == batch_report(cfg, other + recent),
        batch_report(cfg, old + recent) == whole_report(cfg, recent, old.len()),
        batch_report(cfg, short) == whole_report(cfg, short, 0),
{
    assert((old + recent).skip(old.len() as int) =~= recent);
    assert((other + recent).skip(old.len() as int) =~= recent);
    assert(short.skip(0) =~= short);
}

/// A chat becomes a conversation: what users say, what tools answer, and what
/// the assistant says, if anything, before the tools it calls; instructions
/// are left out.
pub proof fn chat_becomes_a_conversation(messages: Seq<Message>, m: Message)
    ensures
        ({
            let before = sharegpt_rows(messages);
            let after = sharegpt_rows(messages.push(m));
            &&& m.role == Role::User ==> after == before.push(
                Row { from: "human"@, value: message_body(m) },
            )
            &&& m.role == Role::Tool ==> after == before.push(
                Row { from: "observation"@, value: message_body(m) },
            )
            &&& m.role == Role::System || m.role == Role::Developer ==> after == before
            &&& m.role == Role::Assistant && m.tool_calls is None && message_body(m).len() > 0
                ==> after == before.push(Row { from: "gpt"@, value: message_body(m) })
            &&& m.role == Role::Assistant && m.tool_calls is None && message_body(m).len() == 0
                ==> after == before
            &&& m.role == Role::Assistant && m.tool_calls is Some ==> after.len() == before.len()
                + (if message_body(m).len() > 0 { 1nat } else { 0 })
                + m.tool_calls->0@.len()
        }),
        sharegpt_rows(Seq::empty()).len() == 0,
{
    assert(messages.push(m).drop_last() =~= messages);
    let before = sharegpt_rows(messages);
    let after = sharegpt_rows(messages.push(m));
    if m.role == Role::User {
        assert(after =~= before.push(Row { from: "human"@, value: message_body(m) }));
    } else if m.role == Role::Tool {
        assert(after =~= before.push(Row { from: "observation"@, value: message_body(m) }));
    } else if m.role == Role::Assistant {
        if m.tool_calls is None {
            if message_body(m).len() > 0 {
                assert(after =~= before.push(Row { from: "gpt"@, value: message_body(m) }));
            } else {
                assert(after =~= before);
            }
        }
    } else {
        assert(after =~= before);
    }
}

proof fn lemma_first_new(
    signals: Seq<SignalFacts>,
    i: nat,
    report: ReportFacts,
    prev: ReportFacts,
    k: int,
)
    requires
        0 <= k,
    ensures
        match first_new(signals, i, report, prev, k) {
            Some(s) => exists|n: int|
                k <= n < signals.len() && #[trigger] signals[n] == s && s.message_index == i
                    && type_count(report.all_signals(), s.signal_type) > type_count(
                    prev.all_signals(),
                    s.signal_type,
                ),
            None => forall|n: int|
                k <= n < signals.len() ==> (#[trigger] signals[n]).message_index != i
                    || type_count(report.all_signals(), signals[n].signal_type) <= type_count(
                    prev.all_signals(),
                    signals[n].signal_type,
                ),
        },
    decreases signals.len() - k,
{
    if k < signals.len() {
        lemma_first_new(signals, i, report, prev, k + 1);
    }
}

/// A message is graded by the report after it, and is shown a signal that is
/// located at it and new; a message without one is neutral.
pub proof fn message_is_shown_what_is_new(row: Row, i: nat, report: ReportFacts, prev: ReportFacts)
    ensures
        ({
            let e = message_entry(row, i, report, prev);
            &&& e.role == row.from
            &&& e.content == row.value
            &&& e.score == report.quality_score
            &&& e.quality == report.overall_quality.name()
            &&& e.matched is Some ==> exists|n: int|
                0 <= n < by_priority(report).len() && (#[trigger] by_priority(
                    report,
                )[n]).message_index == i && by_priority(report)[n].snippet == e.matched->0
                    && type_count(
                    report.all_signals(),
                    by_priority(report)[n].signal_type,
                ) > type_count(prev.all_signals(), by_priority(report)[n].signal_type)
            &&& e.matched is None ==> e.label == "neutral"@ && e.signal_class is None
                && e.signal_type is None && forall|n: int|
                0 <= n < by_priority(report).len() ==> (#[trigger] by_priority(
                    report,
                )[n]).message_index != i || type_count(
                    report.all_signals(),
                    by_priority(report)[n].signal_type,
                ) <= type_count(prev.all_signals(), by_priority(report)[n].signal_type)
        }),
{
    reveal(message_entry);
    lemma_first_new(by_priority(report), i, report, prev, 0);
}

/// The signals of a report by priority: how users leave or are pleased comes
/// before how they are misunderstood, then what fails, and last what repeats.
pub proof fn priority_keeps_every_signal(r: ReportFacts)
    ensures
        by_priority(r).len() == r.all_signals().len(),
        r.interaction.disengagement.signals.len() > 0 ==> by_priority(r)[0]
            == r.interaction.disengagement.signals[0],
        r.interaction.disengagement.signals.len() == 0
            && r.interaction.satisfaction.signals.len() > 0 ==> by_priority(r)[0]
            == r.interaction.satisfaction.signals[0],
        r.interaction.disengagement.signals.len() == 0
            && r.interaction.satisfaction.signals.len() == 0
            && r.interaction.misalignment.signals.len() > 0 ==> by_priority(r)[0]
            == r.interaction.misalignment.signals[0],
{
}

/// A dotted name is cut at its first dot.
pub proof fn names_are_cut_at_the_first_dot(class: Seq<char>, rest: Seq<char>)
    requires
        !class.contains('.'),
    ensures
        split_at_dot(class + seq!['.'] + rest) == Some((class, rest)),
{
    let name = class + seq!['.'] + rest;
    lemma_first_index(name, '.');
    assert(name[class.len() as int] == '.');
    assert forall|j: int| 0 <= j < class.len() implies name[j] != '.' by {
        assert(name[j] == class[j]);
        assert(class.contains(class[j]));
    }
    assert(crate::text::first_index(name, '.') == Some(class.len() as int));
    assert(name.take(class.len() as int) =~= class);
    assert(name.skip(class.len() as int + 1) =~= rest);
}

/// A signal is shown by its layer and, behind the dot, its category and leaf;
/// satisfaction is positive, a clarification neutral.
pub proof fn signals_are_labelled(t: SignalType)
    ensures
        split_at_dot(t.name()) == Some(
            (t.spec_layer().name(), t.spec_category() + "."@ + t.leaf()),
        ),
        t.spec_category() == "satisfaction"@ ==> label_of(split_at_dot(t.name())) == "positive"@,
        label_of(None) == "neutral"@,
{
    identifier_is_hierarchical(t);
    reveal_strlit(".");
    let class = t.spec_layer().name();
    let rest = t.spec_category() + "."@ + t.leaf();
    assert(t.name() =~= class + seq!['.'] + rest);
    names_are_cut_at_the_first_dot(class, rest);
    if t.spec_category() == "satisfaction"@ {
        assert(rest.subrange(0, "satisfaction"@.len() as int) =~= "satisfaction"@);
        assert(stands_at(rest, "satisfaction"@, 0));
        assert(occurs_in(rest, "satisfaction"@));
    }
}

/// A report holds what every detector found among the spoken messages, or
/// among all rows, each in the group of its name. Phrases count from the
/// configured likeness on. Messages repeat what the same side said at most two
/// messages before, from 85 percent likeness on, and exactly from 95 on.
pub proof fn every_detector_reports(cfg: SignalAnalyzerConfig, conv: Seq<Row>, base: nat)
    ensures
        ({
            let r = whole_report(cfg, conv, base);
            let ms = spoken(conv, base, cfg.max_message_length as nat);
            let n = ms.len() as int;
            let t = Thresholds {
                char_ngram: cfg.char_ngram_threshold,
                token_cosine: cfg.token_cosine_threshold,
            };
            let last = (base + (if conv.len() == 0 { 0 } else { conv.len() - 1 })) as nat;
            let drag = if r.turn_metrics.is_dragging {
                seq![dragging_fact(r.turn_metrics, last, cfg.baseline_turns as nat)]
            } else {
                Seq::empty()
            };
            &&& r.interaction.misalignment.signals == misalignment_facts(ms, n, t)
            &&& r.interaction.stagnation.signals == drag + repetition_facts(
                ms,
                n,
                2,
                Ratio { num: 95, den: 100 },
                Ratio { num: 85, den: 100 },
            )
            &&& r.interaction.disengagement.signals == disengagement_facts(ms, n, t)
            &&& r.interaction.satisfaction.signals == satisfaction_facts(ms, n, t)
            &&& r.execution.failure.signals == failure_facts(conv, base, conv.len() as int)
            &&& r.execution.loops.signals == loop_facts(calls_in(conv, base))
            &&& r.environment.exhaustion.signals == exhaustion_facts(conv, base, conv.len() as int)
            &&& r.interaction.misalignment.category == "misalignment"@
            &&& r.interaction.stagnation.category == "stagnation"@
            &&& r.interaction.disengagement.category == "disengagement"@
            &&& r.interaction.satisfaction.category == "satisfaction"@
            &&& r.execution.failure.category == "failure"@
            &&& r.execution.loops.category == "loops"@
            &&& r.environment.exhaustion.category == "exhaustion"@
        }),
{
    reveal(crate::signals::analyzer::assembled);
}

/// The usual knobs: five turns before a conversation may drag, the last
/// hundred messages of two thousand characters, two hundred to look back on,
/// and phrases that are alike by 65 and by 60 percent.
pub proof fn usual_knobs()
    ensures
        usual_config().baseline_turns == 5,
        usual_config().max_messages == 100,
        usual_config().max_message_length == 2000,
        usual_config().context_lookback == 200,
        usual_config().char_ngram_threshold == (Ratio { num: 65, den: 100 }),
        usual_config().token_cosine_threshold == (Ratio { num: 60, den: 100 }),
{
}

} // verus!
