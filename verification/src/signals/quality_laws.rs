//! What holds of the grade of every conversation.

use crate::signals::quality::{assessment, raw_score, summary_alerts, type_count};
use crate::signals::schemas::{
    group_of, EnvironmentFacts, ExecutionFacts, GroupFacts, InteractionFacts,
    InteractionQuality, SignalFacts, SignalType, TurnMetrics,
};
use vstd::prelude::*;

verus! {

/// Whether nothing in a conversation rules out a good grade: nobody asks for
/// someone else or quits, and neither disengagement nor stagnation is severe.
pub open spec fn is_open(i: InteractionFacts) -> bool {
    &&& type_count(i.disengagement.signals, SignalType::DisengagementEscalation) == 0
    &&& type_count(i.disengagement.signals, SignalType::DisengagementQuit) == 0
    &&& i.disengagement.severity < 3
    &&& i.stagnation.severity < 3
}

/// The rank of a quality, the best one highest.
pub open spec fn rank(q: InteractionQuality) -> int {
    match q {
        InteractionQuality::Severe => 0,
        InteractionQuality::Poor => 1,
        InteractionQuality::Neutral => 2,
        InteractionQuality::Good => 3,
        InteractionQuality::Excellent => 4,
    }
}

/// A conversation without any signal scores 50 and is neutral.
pub proof fn quiet_conversation_is_neutral(
    i: InteractionFacts,
    x: ExecutionFacts,
    e: EnvironmentFacts,
    user_turns: nat,
)
    requires
        is_open(i),
        i.misalignment.severity == 0,
        i.stagnation.count == 0,
        i.disengagement.count == 0,
        i.satisfaction.count == 0,
        x.failure.count == 0,
        x.loops.count == 0,
        e.exhaustion.count == 0,
    ensures
        assessment(i, x, e, user_turns) == (InteractionQuality::Neutral, 50int),
{
}

/// The score is the sum of what the signals add and take, kept between 0 and
/// 100, and the quality is read off it.
pub proof fn score_is_kept_on_the_scale(
    i: InteractionFacts,
    x: ExecutionFacts,
    e: EnvironmentFacts,
    user_turns: nat,
)
    requires
        is_open(i),
    ensures
        ({
            let (quality, score) = assessment(i, x, e, user_turns);
            let raw = raw_score(i, x, e, user_turns);
            &&& 0 <= score <= 100
            &&& 0 <= raw <= 100 ==> score == raw
            &&& raw < 0 ==> score == 0
            &&& raw > 100 ==> score == 100
            &&& (rank(quality) >= 4) == (score >= 75)
            &&& (rank(quality) >= 3) == (score >= 60)
            &&& (rank(quality) >= 2) == (score >= 40)
            &&& (rank(quality) >= 1) == (score >= 25)
        }),
{
}

/// A conversation is beyond repair where a user asks for someone else or
/// quits, or where disengagement or stagnation is severe, whatever else it shows.
pub proof fn severe_signals_decide(
    i: InteractionFacts,
    x: ExecutionFacts,
    e: EnvironmentFacts,
    user_turns: nat,
)
    requires
        i.disengagement.severity >= 3 || i.stagnation.severity >= 3 || (i.disengagement.count > 0
            && (type_count(i.disengagement.signals, SignalType::DisengagementEscalation) > 0
            || type_count(i.disengagement.signals, SignalType::DisengagementQuit) > 0)),
    ensures
        assessment(i, x, e, user_turns).0 == InteractionQuality::Severe,
        assessment(i, x, e, user_turns).1 == 0,
{
}

/// Misalignment on more than three in ten user turns takes 15 points, against
/// the same conversation without it; on fewer it takes nothing. A
/// conversation without user turns counts as one of a single turn.
pub proof fn misalignment_takes_fifteen_points(
    i: InteractionFacts,
    aligned: GroupFacts,
    x: ExecutionFacts,
    e: EnvironmentFacts,
    user_turns: nat,
)
    requires
        aligned.severity == 0,
        i.misalignment.severity > 0,
        i.misalignment.count <= u64::MAX,
        user_turns <= u64::MAX,
    ensures
        ({
            let without = InteractionFacts { misalignment: aligned, ..i };
            let turns = if user_turns == 0 { 1 } else { user_turns };
            raw_score(i, x, e, user_turns) == raw_score(without, x, e, user_turns) - (if 10
                * i.misalignment.count > 3 * turns {
                15int
            } else {
                0
            })
        }),
{
    let turns = if user_turns == 0 { 1 } else { user_turns };
    let count = i.misalignment.count;
    assert(30 * turns >= count * 100 <==> 3 * turns >= 10 * count) by (nonlinear_arith);
}

/// More misalignment never raises the score or the quality.
pub proof fn misalignment_never_raises_the_grade(
    i: InteractionFacts,
    more: GroupFacts,
    x: ExecutionFacts,
    e: EnvironmentFacts,
    user_turns: nat,
)
    requires
        i.misalignment.count <= more.count <= u64::MAX,
        i.misalignment.severity <= more.severity,
        user_turns <= u64::MAX,
    ensures
        ({
            let worse = InteractionFacts { misalignment: more, ..i };
            let a = assessment(i, x, e, user_turns);
            let b = assessment(worse, x, e, user_turns);
            b.1 <= a.1 && rank(b.0) <= rank(a.0)
        }),
{
    let turns = if user_turns == 0 { 1 } else { user_turns };
    let a = i.misalignment.count;
    let b = more.count;
    assert(a * 100 <= b * 100) by (nonlinear_arith)
        requires
            a <= b,
    ;
}

/// One signal of satisfaction adds 12 points, a second one 4 more, a third
/// one 3 more, and all others nothing.
pub proof fn satisfaction_adds_less_and_less(
    i: InteractionFacts,
    pleased: GroupFacts,
    x: ExecutionFacts,
    e: EnvironmentFacts,
    user_turns: nat,
)
    requires
        pleased.count == i.satisfaction.count + 1,
    ensures
        ({
            let better = InteractionFacts { satisfaction: pleased, ..i };
            raw_score(better, x, e, user_turns) - raw_score(i, x, e, user_turns) == (if pleased.count
                == 1 {
                12int
            } else if pleased.count == 2 {
                4
            } else if pleased.count == 3 {
                3
            } else {
                0
            })
        }),
{
}

/// Disengagement takes ten points for each degree of its severity.
pub proof fn disengagement_takes_ten_points_a_degree(
    i: InteractionFacts,
    calm: GroupFacts,
    x: ExecutionFacts,
    e: EnvironmentFacts,
    user_turns: nat,
)
    requires
        calm.count == 0,
        i.disengagement.count > 0,
    ensures
        ({
            let without = InteractionFacts { disengagement: calm, ..i };
            raw_score(without, x, e, user_turns) - raw_score(i, x, e, user_turns) == 10
                * i.disengagement.severity
        }),
{
}

/// Stagnation takes eight points for each degree of its severity, from the
/// third signal on.
pub proof fn stagnation_takes_eight_points_a_degree(
    i: InteractionFacts,
    moving: GroupFacts,
    x: ExecutionFacts,
    e: EnvironmentFacts,
    user_turns: nat,
)
    requires
        moving.count == 0,
    ensures
        ({
            let without = InteractionFacts { stagnation: moving, ..i };
            raw_score(without, x, e, user_turns) - raw_score(i, x, e, user_turns) == (if i.stagnation.count
                >= 3 {
                8 * i.stagnation.severity
            } else {
                0
            })
        }),
{
}

/// Each failure takes eight points, each loop five, and each limit of the
/// environment three.
pub proof fn failures_take_their_points(
    i: InteractionFacts,
    x: ExecutionFacts,
    y: ExecutionFacts,
    e: EnvironmentFacts,
    g: EnvironmentFacts,
    user_turns: nat,
)
    ensures
        raw_score(i, x, e, user_turns) - raw_score(i, y, g, user_turns) == 8 * (y.failure.count
            - x.failure.count) + 5 * (y.loops.count - x.loops.count) + 3 * (g.exhaustion.count
            - e.exhaustion.count),
{
}

/// The severity of a group grows with its signals: none, one or two, three or
/// four, and five or more.
pub proof fn severity_grows_with_the_signals(category: Seq<char>, signals: Seq<SignalFacts>)
    ensures
        ({
            let g = group_of(category, signals);
            &&& g.count == signals.len()
            &&& g.signals == signals
            &&& g.category == category
            &&& (g.severity >= 1) == (signals.len() >= 1)
            &&& (g.severity >= 2) == (signals.len() >= 3)
            &&& (g.severity >= 3) == (signals.len() >= 5)
            &&& g.severity <= 3
        }),
{
}

/// A signal counts towards its own type, and towards no other.
pub proof fn signals_count_by_type(signals: Seq<SignalFacts>, s: SignalFacts, t: SignalType)
    ensures
        type_count(Seq::empty(), t) == 0,
        type_count(signals.push(s), t) - type_count(signals, t) == (if s.signal_type == t {
            1int
        } else {
            0
        }),
{
    assert(signals.push(s).drop_last() =~= signals);
}

/// The summary raises an alarm for misalignment on more than three in ten user
/// turns, for three or more signals of stagnation, and for every conversation
/// in which someone else was asked for; for nothing else.
pub proof fn alarms_are_raised(m: TurnMetrics, i: InteractionFacts)
    requires
        i.misalignment.count <= u64::MAX,
    ensures
        ({
            let turns = if m.user_turns == 0 { 1 } else { m.user_turns as int };
            let misaligned = if 10 * i.misalignment.count > 3 * turns { 1int } else { 0 };
            let stuck = if i.stagnation.count >= 3 { 1int } else { 0 };
            let leaving = if type_count(
                i.disengagement.signals,
                SignalType::DisengagementEscalation,
            ) > 0 {
                1int
            } else {
                0
            };
            summary_alerts(m, i).len() == misaligned + stuck + leaving
        }),
{
    let turns = if m.user_turns == 0 { 1 } else { m.user_turns as int };
    let count = i.misalignment.count as int;
    assert(30 * turns >= count * 100 <==> 3 * turns >= 10 * count) by (nonlinear_arith);
}

} // verus!
