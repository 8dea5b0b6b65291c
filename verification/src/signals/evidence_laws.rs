//! What a signal says of itself: its words, how sure it is, and where it stands.

use crate::json::json_members;
use crate::natural::Ratio;
use crate::signals::environment::exhaustion::{exhaustion_of, ExhaustionSpans};
use crate::signals::execution::failure::{
    failure_of, names_error, observed_failure, tool_info, FailureSpans,
};
use crate::signals::execution::loops::{
    comes_before, drift_fact, insert_sorted, oscillation_fact, retry_fact, OscillationFacts,
};
use crate::signals::interaction::disengagement::{
    phrase_stance_facts, phrases_of, punctuation_facts, shouting_facts,
};
use crate::signals::interaction::messages::{Tagged, Thresholds};
use crate::signals::interaction::misalignment::misalignment_of;
use crate::signals::interaction::satisfaction::satisfaction_of;
use crate::signals::interaction::stagnation::{dragging_facts, repetition_fact};
use crate::signals::schemas::{MetadataFacts, SignalFacts, SignalType, TurnMetrics};
use crate::signals::text_processing::{jaccard_similarity, PatternText};
use crate::text::{joined, lowercase, numeral, rounded_text};
use vstd::prelude::*;

verus! {

/// Whether a signal is as sure as so many hundredths.
pub open spec fn is_sure(f: SignalFacts, hundredths: u128) -> bool {
    f.confidence == (Ratio { num: hundredths, den: 100 })
}

// ---------------------------------------------------------------------------
// Interaction
// ---------------------------------------------------------------------------

/// A misalignment stands at its message. One told by a phrase quotes it and is
/// filed under the last part of its name; one told by likeness names the
/// message it is like, and is less sure.
pub proof fn misalignment_says_where_it_stands(m: Tagged, prev: Option<Tagged>, t: Thresholds)
    ensures
        misalignment_of(m, prev, t) matches Some(f) ==> {
            &&& f.message_index == m.index
            &&& f.metadata matches MetadataFacts::Pattern { pattern_type } ==> pattern_type
                == f.signal_type.leaf() && f.confidence.num == f.confidence.den
            &&& f.metadata matches MetadataFacts::SemanticRephrase { compared_to } ==> prev is Some
                && compared_to == prev->0.index && is_sure(f, 80)
            &&& f.metadata is Pattern || f.metadata is SemanticRephrase
        },
{
}

/// Satisfaction stands at its message, quotes its phrase, and is filed under
/// the last part of its name.
pub proof fn satisfaction_says_where_it_stands(m: Tagged, t: Thresholds)
    ensures
        satisfaction_of(m, t) matches Some(f) ==> {
            &&& f.message_index == m.index
            &&& f.metadata == (MetadataFacts::Pattern { pattern_type: f.signal_type.leaf() })
            &&& f.confidence.num == f.confidence.den
        },
{
}

/// The phrases of disengagement stand at their message: escalation and
/// quitting are filed under the last part of their names, and what is held
/// against the agent as profanity or as a complaint.
pub proof fn disengagement_says_where_it_stands(m: Tagged, t: Thresholds, i: int)
    requires
        0 <= i < phrases_of(m, t).len(),
    ensures
        ({
            let f = phrases_of(m, t)[i];
            &&& f.message_index == m.index
            &&& f.confidence.num == f.confidence.den
            &&& f.metadata matches MetadataFacts::Pattern { pattern_type } ==> pattern_type
                == f.signal_type.leaf()
            &&& f.metadata is Profanity || f.metadata is Complaint ==> f.signal_type
                == SignalType::DisengagementNegativeStance
            &&& f.metadata matches MetadataFacts::Profanity { pattern } ==> pattern == f.snippet
            &&& f.metadata matches MetadataFacts::Complaint { pattern } ==> pattern == f.snippet
        }),
{
}

/// Profanity is told from a complaint.
pub proof fn profanity_is_no_complaint(index: nat, p: PatternText)
    ensures
        phrase_stance_facts(index, Some(p), true).len() == 1,
        phrase_stance_facts(index, Some(p), true)[0].metadata is Profanity,
        phrase_stance_facts(index, Some(p), false)[0].metadata is Complaint,
        phrase_stance_facts(index, Some(p), true)[0].snippet == p.raw,
        phrase_stance_facts(index, None, true).len() == 0,
{
}

/// Shouting and runs of marks are negative stances at their message, with the
/// beginning of it, fifty characters at most, and the numbers that tell them.
pub proof fn shouting_is_quoted(
    index: nat,
    raw: Seq<char>,
    questions: nat,
    exclamations: nat,
    mixed: nat,
)
    ensures
        shouting_facts(index, raw).len() > 0 ==> {
            let f = shouting_facts(index, raw)[0];
            &&& f.signal_type == SignalType::DisengagementNegativeStance
            &&& f.message_index == index
            &&& raw.len() <= 50 ==> f.snippet == raw
            &&& raw.len() > 50 ==> f.snippet == raw.take(50)
            &&& f.metadata is AllCaps
        },
        punctuation_facts(index, raw, false, questions, exclamations, mixed).len() > 0 ==> {
            let f = punctuation_facts(index, raw, false, questions, exclamations, mixed)[0];
            &&& f.signal_type == SignalType::DisengagementNegativeStance
            &&& f.message_index == index
            &&& raw.len() <= 50 ==> f.snippet == raw
            &&& f.metadata == (MetadataFacts::ExcessivePunctuation {
                consecutive_questions: questions,
                consecutive_exclamations: exclamations,
                mixed_punctuation: mixed,
            })
        },
        punctuation_facts(index, raw, true, questions, exclamations, mixed).len() == 0,
{
}

/// A conversation that drags says so at its last message, with its turns and
/// its efficiency, and the surer the less efficient it is.
pub proof fn dragging_says_how_much(m: TurnMetrics, n: nat, baseline: nat)
    requires
        m.efficiency_score.num <= m.efficiency_score.den,
    ensures
        m.is_dragging ==> {
            let d = dragging_facts(m, n, baseline);
            let f = d[0];
            &&& d.len() == 1
            &&& f.signal_type == SignalType::StagnationDragging
            &&& n > 0 ==> f.message_index == n - 1
            &&& f.snippet == "Conversation dragging: "@ + numeral(m.total_turns as nat)
                + " turns (efficiency: "@ + rounded_text(
                m.efficiency_score.num as nat,
                m.efficiency_score.den as nat,
                2,
            ) + ")"@
            &&& f.confidence.num + m.efficiency_score.num == m.efficiency_score.den
            &&& f.confidence.den == m.efficiency_score.den
            &&& f.metadata == (MetadataFacts::Dragging {
                total_turns: m.total_turns as nat,
                efficiency_score: m.efficiency_score,
                baseline_turns: baseline,
            })
        },
        !m.is_dragging ==> dragging_facts(m, n, baseline).len() == 0,
{
}

/// A repetition names the message that it repeats and how alike the two are;
/// an exact one says that it is.
pub proof fn repetition_names_the_other(m: Tagged, p: Tagged)
    ensures
        ({
            let exact = repetition_fact(m, p, true);
            let near = repetition_fact(m, p, false);
            let s = jaccard_similarity(m.text.char_ngram_set, p.text.char_ngram_set);
            &&& exact.message_index == m.index && near.message_index == m.index
            &&& exact.confidence == s && near.confidence == s
            &&& exact.snippet == "Exact repetition with message "@ + numeral(p.index)
            &&& near.snippet == "Near-duplicate with message "@ + numeral(p.index)
            &&& exact.metadata == (MetadataFacts::Repetition {
                repetition_type: "exact"@,
                compared_to: p.index,
                similarity: s,
                role: m.role,
            })
            &&& near.metadata == (MetadataFacts::Repetition {
                repetition_type: "near_duplicate"@,
                compared_to: p.index,
                similarity: s,
                role: m.role,
            })
            &&& exact.signal_type == SignalType::StagnationRepetition
            &&& near.signal_type == SignalType::StagnationRepetition
        }),
{
}

// ---------------------------------------------------------------------------
// Execution and environment
// ---------------------------------------------------------------------------

/// A failure stands at its observation, names the tool and the call, is filed
/// under the last part of its name, and is as sure as its kind: that a tool is
/// missing most, a failed query least, unless it speaks of an error.
pub proof fn failure_names_its_call(
    value: Seq<char>,
    index: nat,
    call: nat,
    tool: Seq<char>,
    m: FailureSpans,
)
    ensures
        failure_of(value, index, call, tool, m) matches Some(f) ==> {
            &&& f.message_index == index
            &&& f.metadata matches MetadataFacts::Failure {
                tool_name,
                call_index,
                error_type,
                matched,
            } && tool_name == tool && call_index == call && error_type == f.signal_type.leaf()
            &&& f.signal_type == SignalType::ExecutionFailureInvalidArgs ==> is_sure(f, 90)
            &&& f.signal_type == SignalType::ExecutionFailureToolNotFound ==> is_sure(f, 95)
            &&& f.signal_type == SignalType::ExecutionFailureAuthMisuse ==> is_sure(f, 80)
            &&& f.signal_type == SignalType::ExecutionFailureStateError ==> is_sure(f, 85)
            &&& f.signal_type == SignalType::ExecutionFailureBadQuery ==> is_sure(
                f,
                if names_error(lowercase(value)) {
                    80
                } else {
                    60
                },
            )
        },
{
}

/// Without a call before it a failure is laid to an unknown tool at the
/// message before.
pub proof fn failure_without_a_call(value: Seq<char>, index: nat)
    ensures
        index > 0 ==> observed_failure(value, index, None) == observed_failure(
            value,
            index,
            Some(((index - 1) as nat, "unknown"@)),
        ),
        observed_failure(value, 0, None) == observed_failure(value, 0, Some((0, "unknown"@))),
        json_members(value) is None ==> tool_info(value).0 == "unknown"@,
        json_members(value) is None && value.len() <= 200 ==> tool_info(value).1 == value,
        json_members(value) is None && value.len() > 200 ==> tool_info(value).1 == value.take(200),
{
}

/// What runs out stands at its observation, is filed under the last part of
/// its name, and is as sure as its kind.
pub proof fn exhaustion_says_what_ran_out(value: Seq<char>, index: nat, m: ExhaustionSpans)
    ensures
        exhaustion_of(value, index, m) matches Some(f) ==> {
            &&& f.message_index == index
            &&& f.metadata matches MetadataFacts::Exhaustion { exhaustion_type, matched }
                && exhaustion_type == f.signal_type.leaf()
            &&& f.signal_type == SignalType::EnvironmentExhaustionRateLimit ==> is_sure(f, 95)
            &&& f.signal_type == SignalType::EnvironmentExhaustionApiError ==> is_sure(f, 90)
            &&& f.signal_type == SignalType::EnvironmentExhaustionTimeout ==> is_sure(f, 90)
            &&& f.signal_type == SignalType::EnvironmentExhaustionNetwork ==> is_sure(f, 90)
            &&& f.signal_type == SignalType::EnvironmentExhaustionMalformed ==> is_sure(f, 85)
            &&& f.signal_type == SignalType::EnvironmentExhaustionContextOverflow ==> is_sure(f, 90)
        },
{
}

/// Loops say which tools were called, how often, and from where to where.
pub proof fn loops_say_what_was_called(
    start: nat,
    end: nat,
    tool: Seq<char>,
    variations: nat,
    count: nat,
    o: OscillationFacts,
)
    ensures
        ({
            let r = retry_fact(start, end, tool, count);
            let d = drift_fact(start, end, tool, variations, count);
            let w = oscillation_fact(o);
            &&& r.message_index == start && d.message_index == start && w.message_index == o.start
            &&& is_sure(r, 95) && is_sure(d, 85) && is_sure(w, 90)
            &&& r.snippet == "Tool '"@ + tool + "' called "@ + numeral(count)
                + " times with identical arguments"@
            &&& d.snippet == "Tool '"@ + tool + "' called "@ + numeral(count) + " times with "@
                + numeral(variations) + " different argument variations"@
            &&& w.snippet == "Oscillation pattern ["@ + joined(o.names, " \u{2192} "@)
                + "] repeated "@ + numeral(o.cycles) + " times"@
            &&& r.metadata == (MetadataFacts::Retry {
                tool_name: tool,
                start_index: start,
                end_index: end,
                call_count: count,
            })
            &&& d.metadata == (MetadataFacts::ParameterDrift {
                tool_name: tool,
                start_index: start,
                end_index: end,
                call_count: count,
                variation_count: variations,
            })
            &&& w.metadata == (MetadataFacts::Oscillation {
                tools: o.names,
                start_index: o.start,
                end_index: o.end,
                cycle_count: o.cycles,
            })
        }),
{
}

/// Of two oscillations the one that starts earlier goes first; of two that
/// start together, the longer one.
pub proof fn earlier_and_longer_goes_first(a: OscillationFacts, b: OscillationFacts)
    ensures
        a.start < b.start ==> comes_before(a, b) && !comes_before(b, a),
        a.start == b.start && a.end > b.end ==> comes_before(a, b) && !comes_before(b, a),
        comes_before(b, a) ==> insert_sorted(seq![a], b) == seq![b, a],
        !comes_before(b, a) ==> insert_sorted(seq![a], b) == seq![a, b],
{
    reveal_with_fuel(insert_sorted, 3);
    assert(seq![a].drop_last() =~= Seq::empty());
    assert(seq![b].push(a) =~= seq![b, a]);
    assert(seq![a].push(b) =~= seq![a, b]);
}

} // verus!
