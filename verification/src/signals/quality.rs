//! Quality scoring and the summary line of a report.

use crate::natural::Ratio;
use crate::signals::schemas::{
    misalignment_rate, signals_view, EnvironmentFacts, EnvironmentSignals, ExecutionFacts,
    ExecutionSignals, GroupFacts, InteractionFacts, InteractionQuality, InteractionSignals,
    SignalFacts, SignalGroup, SignalInstance, SignalType, TurnMetrics,
};
use crate::text::{
    fixed_point, join, joined, lemma_texts_push, numeral, rounded_text, texts, to_decimal,
};
use vstd::prelude::*;
use vstd::string::StringExecFns;

verus! {

// ---------------------------------------------------------------------------
// Counting
// ---------------------------------------------------------------------------

/// How many of the signals have type `t`.
pub open spec fn type_count(signals: Seq<SignalFacts>, t: SignalType) -> nat
    decreases signals.len(),
{
    if signals.len() == 0 {
        0
    } else {
        type_count(signals.drop_last(), t) + if signals.last().signal_type == t { 1nat } else { 0 }
    }
}

/// Counts the signals of one type.
pub fn count_type(signals: &Vec<SignalInstance>, t: SignalType) -> (n: usize)
    ensures
        n == type_count(signals_view(signals@), t),
{
    let ghost all = signals_view(signals@);
    let mut n: usize = 0;
    let mut i: usize = 0;
    while i < signals.len()
        invariant
            i <= signals.len(),
            n <= i,
            all == signals_view(signals@),
            n == type_count(all.take(i as int), t),
        decreases signals.len() - i,
    {
        proof {
            let next = all.take(i + 1);
            assert(next.drop_last() =~= all.take(i as int));
            assert(next.last() == signals@[i as int]@);
        }
        if signals[i].signal_type == t {
            n += 1;
        }
        i += 1;
    }
    assert(all.take(signals@.len() as int) =~= all);
    n
}

// ---------------------------------------------------------------------------
// Quality
// ---------------------------------------------------------------------------

/// Whether more than 30% of the user turns show misalignment.
pub open spec fn misalignment_is_high(count: nat, user_turns: nat) -> bool {
    !(Ratio { num: 30, den: 100 }).spec_at_least(misalignment_rate(count, user_turns))
}

/// Whether nothing can make up for what the signals show: the user asks for
/// someone else or quits, or disengagement or stagnation is severe.
pub open spec fn is_critical(i: InteractionFacts) -> bool {
    ||| i.disengagement.count > 0 && (type_count(
        i.disengagement.signals,
        SignalType::DisengagementEscalation,
    ) > 0 || type_count(i.disengagement.signals, SignalType::DisengagementQuit) > 0)
    ||| i.disengagement.severity >= 3
    ||| i.stagnation.severity >= 3
}

/// What satisfaction adds to the score: 20 points times 0.6, 0.8 or 0.95.
pub open spec fn satisfaction_bonus(count: nat) -> int {
    if count == 0 {
        0
    } else if count == 1 {
        12
    } else if count == 2 {
        16
    } else {
        19
    }
}

/// The score before it is limited to the scale from 0 to 100.
pub open spec fn raw_score(
    i: InteractionFacts,
    x: ExecutionFacts,
    e: EnvironmentFacts,
    user_turns: nat,
) -> int {
    50 + satisfaction_bonus(i.satisfaction.count) - (if i.disengagement.count > 0 {
        i.disengagement.severity * 10
    } else {
        0
    }) - (if i.misalignment.severity > 0 && misalignment_is_high(i.misalignment.count, user_turns) {
        15int
    } else {
        0
    }) - (if i.stagnation.count > 2 { i.stagnation.severity * 8 } else { 0 }) - x.failure.count * 8
        - x.loops.count * 5 - e.exhaustion.count * 3
}

/// A number limited to the scale from 0 to 100.
pub open spec fn on_scale(score: int) -> int {
    if score < 0 {
        0
    } else if score > 100 {
        100
    } else {
        score
    }
}

/// The quality a score stands for.
pub open spec fn quality_of(score: int) -> InteractionQuality {
    if score >= 75 {
        InteractionQuality::Excellent
    } else if score >= 60 {
        InteractionQuality::Good
    } else if score >= 40 {
        InteractionQuality::Neutral
    } else if score >= 25 {
        InteractionQuality::Poor
    } else {
        InteractionQuality::Severe
    }
}

/// The quality and the score of a conversation.
pub open spec fn assessment(
    i: InteractionFacts,
    x: ExecutionFacts,
    e: EnvironmentFacts,
    user_turns: nat,
) -> (InteractionQuality, int) {
    if is_critical(i) {
        (InteractionQuality::Severe, 0)
    } else {
        let score = on_scale(raw_score(i, x, e, user_turns));
        (quality_of(score), score)
    }
}

/// Assesses the quality of a conversation by its signals.
pub fn assess_quality(
    interaction: &InteractionSignals,
    execution: &ExecutionSignals,
    environment: &EnvironmentSignals,
    user_turns: usize,
) -> (r: (InteractionQuality, u32))
    ensures
        (r.0, r.1 as int) == assessment(
            interaction@,
            execution@,
            environment@,
            user_turns as nat,
        ),
        r.1 <= 100,
{
    let has_escalation_or_quit: bool = count_type(
        &interaction.disengagement.signals,
        SignalType::DisengagementEscalation,
    ) > 0 || count_type(&interaction.disengagement.signals, SignalType::DisengagementQuit) > 0;
    if (interaction.disengagement.count > 0 && has_escalation_or_quit)
        || interaction.disengagement.severity >= 3 || interaction.stagnation.severity >= 3 {
        return (InteractionQuality::Severe, 0);
    }
    let mut score: i128 = 50;
    if interaction.satisfaction.count == 1 {
        score += 12;
    } else if interaction.satisfaction.count == 2 {
        score += 16;
    } else if interaction.satisfaction.count > 2 {
        score += 19;
    }
    if interaction.disengagement.count > 0 {
        score -= interaction.disengagement.severity as i128 * 10;
    }
    if interaction.misalignment.severity > 0 && !Ratio::new(30, 100).at_least(
        &interaction.misalignment_ratio(user_turns),
    ) {
        score -= 15;
    }
    if interaction.stagnation.count > 2 {
        score -= interaction.stagnation.severity as i128 * 8;
    }
    score -= execution.failure.count as i128 * 8;
    score -= execution.loops.count as i128 * 5;
    score -= environment.exhaustion.count as i128 * 3;
    let limited: u32 = if score < 0 {
        0
    } else if score > 100 {
        100
    } else {
        score as u32
    };
    let quality: InteractionQuality = if limited >= 75 {
        InteractionQuality::Excellent
    } else if limited >= 60 {
        InteractionQuality::Good
    } else if limited >= 40 {
        InteractionQuality::Neutral
    } else if limited >= 25 {
        InteractionQuality::Poor
    } else {
        InteractionQuality::Severe
    };
    (quality, limited)
}

/// A user who asks for someone else or quits makes any conversation severe.
pub proof fn escalation_is_severe(
    i: InteractionFacts,
    x: ExecutionFacts,
    e: EnvironmentFacts,
    user_turns: nat,
)
    requires
        i.disengagement.count > 0,
        type_count(i.disengagement.signals, SignalType::DisengagementEscalation) > 0 || type_count(
            i.disengagement.signals,
            SignalType::DisengagementQuit,
        ) > 0,
    ensures
        assessment(i, x, e, user_turns) == (InteractionQuality::Severe, 0int),
{
}

/// More execution failures never raise the score.
pub proof fn failures_never_raise_the_score(
    i: InteractionFacts,
    x: ExecutionFacts,
    y: ExecutionFacts,
    e: EnvironmentFacts,
    user_turns: nat,
)
    requires
        x.failure.count <= y.failure.count,
        x.loops.count <= y.loops.count,
    ensures
        assessment(i, y, e, user_turns).1 <= assessment(i, x, e, user_turns).1,
{
}

// ---------------------------------------------------------------------------
// Summary
// ---------------------------------------------------------------------------

/// `"<name>: <count> (sev <severity>)"`, without the severity when the count is zero.
pub open spec fn group_text(name: Seq<char>, g: GroupFacts) -> Seq<char> {
    if g.count == 0 {
        name + ": 0"@
    } else {
        name + ": "@ + numeral(g.count) + " (sev "@ + numeral(g.severity as nat) + ")"@
    }
}

/// Renders a group for the summary.
pub fn fmt_group(name: &str, group: &SignalGroup) -> (r: String)
    ensures
        r@ == group_text(name@, group@),
{
    let mut r: String = name.to_owned();
    if group.count == 0 {
        r.append(": 0");
    } else {
        r.append(": ");
        r.append(to_decimal(group.count as u128).as_str());
        r.append(" (sev ");
        r.append(to_decimal(group.severity as u128).as_str());
        r.append(")");
    }
    r
}

/// The layers of the summary: quality, turns and one part for each layer of
/// the taxonomy, always present.
pub open spec fn summary_layers(
    m: TurnMetrics,
    i: InteractionFacts,
    x: ExecutionFacts,
    e: EnvironmentFacts,
    quality: InteractionQuality,
) -> Seq<Seq<char>> {
    seq![
        "Overall Quality: "@ + quality.name(),
        "Turns: "@ + numeral(m.total_turns as nat) + " (efficiency: "@ + rounded_text(
            m.efficiency_score.num as nat * 100,
            m.efficiency_score.den as nat,
            1,
        ) + "%)"@,
        "Interaction \u{2014} "@ + group_text("misalignment"@, i.misalignment) + ", "@ + group_text(
            "stagnation"@,
            i.stagnation,
        ) + ", "@ + group_text("disengagement"@, i.disengagement) + ", "@ + group_text(
            "satisfaction"@,
            i.satisfaction,
        ),
        "Execution \u{2014} "@ + group_text("failure"@, x.failure) + ", "@ + group_text(
            "loops"@,
            x.loops,
        ),
        "Environment \u{2014} "@ + group_text("exhaustion"@, e.exhaustion),
    ]
}

/// The alerts of the summary: high misalignment, looping, escalation.
pub open spec fn summary_alerts(m: TurnMetrics, i: InteractionFacts) -> Seq<Seq<char>> {
    let rate = misalignment_rate(i.misalignment.count, m.user_turns as nat);
    let escalations = type_count(i.disengagement.signals, SignalType::DisengagementEscalation);
    (if i.misalignment.count > 0 && misalignment_is_high(
        i.misalignment.count,
        m.user_turns as nat,
    ) {
        seq![
            "High misalignment rate: "@ + rounded_text(rate.num as nat * 100, rate.den as nat, 1)
                + "% of user turns"@,
        ]
    } else {
        Seq::empty()
    }) + (if i.stagnation.count > 2 {
        seq!["Looping detected: "@ + numeral(i.stagnation.count) + " repetitions"@]
    } else {
        Seq::empty()
    }) + (if escalations > 0 {
        seq!["Escalation requested: "@ + numeral(escalations)]
    } else {
        Seq::empty()
    })
}

/// The summary line of a report.
pub open spec fn summary_text(
    m: TurnMetrics,
    i: InteractionFacts,
    x: ExecutionFacts,
    e: EnvironmentFacts,
    quality: InteractionQuality,
) -> Seq<char> {
    joined(summary_layers(m, i, x, e, quality) + summary_alerts(m, i), " | "@)
}

fn layer_parts(
    turn_metrics: &TurnMetrics,
    interaction: &InteractionSignals,
    execution: &ExecutionSignals,
    environment: &EnvironmentSignals,
    quality: InteractionQuality,
) -> (parts: Vec<String>)
    requires
        turn_metrics.well_formed(),
    ensures
        texts(parts@) == summary_layers(
            *turn_metrics,
            interaction@,
            execution@,
            environment@,
            quality,
        ),
{
    let mut overall: String = "Overall Quality: ".to_owned();
    overall.append(quality.as_str());
    let mut turns: String = "Turns: ".to_owned();
    turns.append(to_decimal(turn_metrics.total_turns as u128).as_str());
    turns.append(" (efficiency: ");
    let e: Ratio = turn_metrics.efficiency_score;
    turns.append(fixed_point(e.num * 100, e.den, 1).as_str());
    turns.append("%)");
    let mut first: String = "Interaction \u{2014} ".to_owned();
    first.append(fmt_group("misalignment", &interaction.misalignment).as_str());
    first.append(", ");
    first.append(fmt_group("stagnation", &interaction.stagnation).as_str());
    first.append(", ");
    first.append(fmt_group("disengagement", &interaction.disengagement).as_str());
    first.append(", ");
    first.append(fmt_group("satisfaction", &interaction.satisfaction).as_str());
    let mut second: String = "Execution \u{2014} ".to_owned();
    second.append(fmt_group("failure", &execution.failure).as_str());
    second.append(", ");
    second.append(fmt_group("loops", &execution.loops).as_str());
    let mut third: String = "Environment \u{2014} ".to_owned();
    third.append(fmt_group("exhaustion", &environment.exhaustion).as_str());
    let mut parts: Vec<String> = Vec::new();
    parts.push(overall);
    parts.push(turns);
    parts.push(first);
    parts.push(second);
    parts.push(third);
    assert(texts(parts@) =~= summary_layers(
        *turn_metrics,
        interaction@,
        execution@,
        environment@,
        quality,
    ));
    parts
}

/// Render the per-conversation summary string: the layers of the taxonomy
/// first, then the alerts.
pub fn generate_summary(
    turn_metrics: &TurnMetrics,
    interaction: &InteractionSignals,
    execution: &ExecutionSignals,
    environment: &EnvironmentSignals,
    quality: InteractionQuality,
) -> (r: String)
    requires
        turn_metrics.well_formed(),
    ensures
        r@ == summary_text(*turn_metrics, interaction@, execution@, environment@, quality),
{
    let mut parts: Vec<String> = layer_parts(
        turn_metrics,
        interaction,
        execution,
        environment,
        quality,
    );
    let ghost layers = texts(parts@);
    let rate: Ratio = interaction.misalignment_ratio(turn_metrics.user_turns);
    if interaction.misalignment.count > 0 && !Ratio::new(30, 100).at_least(&rate) {
        let mut alert: String = "High misalignment rate: ".to_owned();
        alert.append(fixed_point(rate.num * 100, rate.den, 1).as_str());
        alert.append("% of user turns");
        proof {
            lemma_texts_push(parts@, alert);
        }
        parts.push(alert);
    }
    if interaction.stagnation.count > 2 {
        let mut alert: String = "Looping detected: ".to_owned();
        alert.append(to_decimal(interaction.stagnation.count as u128).as_str());
        alert.append(" repetitions");
        proof {
            lemma_texts_push(parts@, alert);
        }
        parts.push(alert);
    }
    let escalation_count: usize = count_type(
        &interaction.disengagement.signals,
        SignalType::DisengagementEscalation,
    );
    if escalation_count > 0 {
        let mut alert: String = "Escalation requested: ".to_owned();
        alert.append(to_decimal(escalation_count as u128).as_str());
        proof {
            lemma_texts_push(parts@, alert);
        }
        parts.push(alert);
    }
    assert(texts(parts@) =~= layers + summary_alerts(*turn_metrics, interaction@));
    join(&parts, " | ")
}

} // verus!
