//! Stagnation signals: dragging (turn-count efficiency) and repetition.

use crate::natural::Ratio;
use crate::signals::interaction::constants::{has_prefix, starts_with_prefix, POSITIVE_PREFIXES};
use crate::signals::interaction::messages::{tagged, tagged_view, Tagged, TaggedMessage};
use crate::signals::schemas::{
    extend_signals, group_of, lemma_signals_push, make_group, signals_view, Metadata,
    MetadataFacts, SignalFacts, SignalGroup, SignalInstance, SignalType, TurnMetrics,
};
use crate::signals::text_processing::{jaccard_similarity, MessageText};
use crate::text::{fixed_point, numeral, rounded_text, same_text, to_decimal};
use vstd::prelude::*;
use vstd::string::StringExecFns;

verus! {

/// Adapter row used by the dragging detector.
pub struct ShareGptMsg<'a> {
    pub from: &'a str,
}

/// The number of rows with a given role.
pub open spec fn turns_of(messages: Seq<ShareGptMsg<'_>>, role: Seq<char>) -> nat
    decreases messages.len(),
{
    if messages.len() == 0 {
        0
    } else {
        turns_of(messages.drop_last(), role) + if messages.last().from@ == role { 1nat } else { 0 }
    }
}

/// How efficient a conversation of `turns` user turns is: 1 up to the
/// baseline, then `1 / (1 + excess / 4)`.
pub open spec fn efficiency(turns: nat, baseline: nat) -> Ratio {
    if turns <= baseline {
        Ratio { num: 1, den: 1 }
    } else {
        Ratio { num: 4, den: (4 + (turns - baseline)) as u128 }
    }
}

/// The metrics of a conversation; it drags where the efficiency is below the
/// threshold.
pub open spec fn metrics_of(
    user_turns: nat,
    assistant_turns: nat,
    baseline: nat,
    threshold: Ratio,
) -> TurnMetrics {
    TurnMetrics {
        total_turns: user_turns as usize,
        user_turns: user_turns as usize,
        assistant_turns: assistant_turns as usize,
        is_dragging: !efficiency(user_turns, baseline).spec_at_least(threshold),
        efficiency_score: efficiency(user_turns, baseline),
    }
}

/// The metrics of a conversation with the given numbers of turns.
pub fn compute_turn_metrics(
    user_turns: usize,
    assistant_turns: usize,
    baseline_turns: usize,
    efficiency_threshold: Ratio,
) -> (r: TurnMetrics)
    ensures
        r == metrics_of(
            user_turns as nat,
            assistant_turns as nat,
            baseline_turns as nat,
            efficiency_threshold,
        ),
{
    let efficiency_score: Ratio = if user_turns <= baseline_turns {
        Ratio::new(1, 1)
    } else {
        Ratio::new(4, 4 + (user_turns - baseline_turns) as u128)
    };
    TurnMetrics {
        total_turns: user_turns,
        user_turns,
        assistant_turns,
        is_dragging: !efficiency_score.at_least(&efficiency_threshold),
        efficiency_score,
    }
}

impl TurnMetrics {
    /// Whether the efficiency is a fraction between 0 and 1 of moderate size.
    pub open spec fn well_formed(self) -> bool {
        &&& self.efficiency_score.num <= self.efficiency_score.den
        &&& 0 < self.efficiency_score.den <= usize::MAX + 4
    }
}

/// The signal of a dragging conversation.
pub open spec fn dragging_fact(m: TurnMetrics, index: nat, baseline: nat) -> SignalFacts {
    let e = m.efficiency_score;
    SignalFacts {
        signal_type: SignalType::StagnationDragging,
        message_index: index,
        snippet: "Conversation dragging: "@ + numeral(m.total_turns as nat) + " turns (efficiency: "@
            + rounded_text(e.num as nat, e.den as nat, 2) + ")"@,
        confidence: Ratio { num: (e.den - e.num) as u128, den: e.den },
        metadata: MetadataFacts::Dragging {
            total_turns: m.total_turns as nat,
            efficiency_score: e,
            baseline_turns: baseline,
        },
    }
}

/// The signal of a conversation that drags.
pub fn dragging_signal(metrics: &TurnMetrics, index: usize, baseline_turns: usize) -> (r:
    SignalInstance)
    requires
        metrics.well_formed(),
    ensures
        r@ == dragging_fact(*metrics, index as nat, baseline_turns as nat),
{
    let e: Ratio = metrics.efficiency_score;
    let mut snippet: String = "Conversation dragging: ".to_owned();
    snippet.append(to_decimal(metrics.total_turns as u128).as_str());
    snippet.append(" turns (efficiency: ");
    snippet.append(fixed_point(e.num, e.den, 2).as_str());
    snippet.append(")");
    SignalInstance::new(SignalType::StagnationDragging, index, snippet.as_str()).with_confidence(
        Ratio::new(e.den - e.num, e.den),
    ).with_metadata(
        Metadata::Dragging {
            total_turns: metrics.total_turns,
            efficiency_score: e,
            baseline_turns,
        },
    )
}

/// The dragging signal of a conversation of `n` rows, where it drags.
pub open spec fn dragging_facts(m: TurnMetrics, n: nat, baseline: nat) -> Seq<SignalFacts> {
    if m.is_dragging {
        seq![dragging_fact(m, (if n == 0 { 0 } else { n - 1 }) as nat, baseline)]
    } else {
        Seq::empty()
    }
}

/// Detects a conversation that takes too many turns.
pub fn analyze_dragging(
    messages: &[ShareGptMsg<'_>],
    baseline_turns: usize,
    efficiency_threshold: Ratio,
) -> (r: (SignalGroup, TurnMetrics))
    ensures
        r.1 == metrics_of(
            turns_of(messages@, "human"@),
            turns_of(messages@, "gpt"@),
            baseline_turns as nat,
            efficiency_threshold,
        ),
        r.1.well_formed(),
        r.1.user_turns == turns_of(messages@, "human"@),
        r.0@ == group_of(
            "stagnation"@,
            dragging_facts(r.1, messages@.len(), baseline_turns as nat),
        ),
{
    let mut user_turns: usize = 0;
    let mut assistant_turns: usize = 0;
    let mut i: usize = 0;
    while i < messages.len()
        invariant
            i <= messages.len(),
            user_turns <= i,
            assistant_turns <= i,
            user_turns == turns_of(messages@.take(i as int), "human"@),
            assistant_turns == turns_of(messages@.take(i as int), "gpt"@),
        decreases messages.len() - i,
    {
        proof {
            let next = messages@.take(i + 1);
            assert(next.drop_last() =~= messages@.take(i as int));
            assert(next.last() == messages@[i as int]);
            reveal_strlit("human");
            reveal_strlit("gpt");
            assert("human"@.len() != "gpt"@.len());
        }
        if same_text(messages[i].from, "human") {
            user_turns += 1;
        } else if same_text(messages[i].from, "gpt") {
            assistant_turns += 1;
        }
        i += 1;
    }
    assert(messages@.take(messages@.len() as int) =~= messages@);
    let metrics: TurnMetrics = compute_turn_metrics(
        user_turns,
        assistant_turns,
        baseline_turns,
        efficiency_threshold,
    );
    let mut found: Vec<SignalInstance> = Vec::new();
    if metrics.is_dragging {
        found.push(dragging_signal(&metrics, messages.len().saturating_sub(1), baseline_turns));
    }
    assert(signals_view(found@) =~= dragging_facts(metrics, messages@.len(), baseline_turns as nat));
    (make_group("stagnation", found), metrics)
}

/// The messages of a role, in order.
pub open spec fn of_role(ms: Seq<Tagged>, role: Seq<char>) -> Seq<Tagged>
    decreases ms.len(),
{
    if ms.len() == 0 {
        Seq::empty()
    } else {
        let rest = of_role(ms.drop_last(), role);
        if ms.last().role == role { rest.push(ms.last()) } else { rest }
    }
}

/// The last `n` elements of `s`.
pub open spec fn last_n(s: Seq<Tagged>, n: nat) -> Seq<Tagged> {
    if s.len() <= n { s } else { s.skip(s.len() - n) }
}

/// Whether a message is long enough to be compared.
pub open spec fn comparable(m: MessageText) -> bool {
    m.tokens.len() >= 5
}

/// The signal of a message that repeats an earlier one.
pub open spec fn repetition_fact(m: Tagged, p: Tagged, exact: bool) -> SignalFacts {
    let similarity = jaccard_similarity(m.text.char_ngram_set, p.text.char_ngram_set);
    SignalFacts {
        signal_type: SignalType::StagnationRepetition,
        message_index: m.index,
        snippet: (if exact {
            "Exact repetition with message "@
        } else {
            "Near-duplicate with message "@
        }) + numeral(p.index),
        confidence: similarity,
        metadata: MetadataFacts::Repetition {
            repetition_type: if exact { "exact"@ } else { "near_duplicate"@ },
            compared_to: p.index,
            similarity,
            role: m.role,
        },
    }
}

/// The first of the earlier messages from `i` on that the message repeats.
pub open spec fn repetition_of(
    m: Tagged,
    earlier: Seq<Tagged>,
    exact_threshold: Ratio,
    near_threshold: Ratio,
    i: int,
) -> Option<SignalFacts>
    decreases earlier.len() - i,
{
    if i >= earlier.len() {
        None
    } else {
        let p = earlier[i];
        let similarity = jaccard_similarity(m.text.char_ngram_set, p.text.char_ngram_set);
        if !comparable(p.text) {
            repetition_of(m, earlier, exact_threshold, near_threshold, i + 1)
        } else if similarity.spec_at_least(exact_threshold) {
            Some(repetition_fact(m, p, true))
        } else if similarity.spec_at_least(near_threshold) {
            Some(repetition_fact(m, p, false))
        } else {
            repetition_of(m, earlier, exact_threshold, near_threshold, i + 1)
        }
    }
}

/// Whether a message is looked at for repetition: one of a user that does
/// not open in a friendly way, or one of the assistant; and long enough.
pub open spec fn checked_for_repetition(m: Tagged) -> bool {
    &&& m.role == "human"@ || m.role == "gpt"@
    &&& !(m.role == "human"@ && has_prefix(m.text.raw, POSITIVE_PREFIXES@))
    &&& comparable(m.text)
}

/// The repetition shown by a message after the earlier messages of its role.
pub open spec fn repetition_after(
    m: Tagged,
    earlier: Seq<Tagged>,
    lookback: nat,
    exact_threshold: Ratio,
    near_threshold: Ratio,
) -> Seq<SignalFacts> {
    if !checked_for_repetition(m) {
        Seq::empty()
    } else {
        match repetition_of(m, last_n(earlier, lookback), exact_threshold, near_threshold, 0) {
            Some(f) => seq![f],
            None => Seq::empty(),
        }
    }
}

/// The repetition shown by message `i`.
pub open spec fn repetition_at(
    ms: Seq<Tagged>,
    i: int,
    lookback: nat,
    exact_threshold: Ratio,
    near_threshold: Ratio,
) -> Seq<SignalFacts> {
    repetition_after(
        ms[i],
        of_role(ms.take(i), ms[i].role),
        lookback,
        exact_threshold,
        near_threshold,
    )
}

/// The repetitions of the first `n` messages, in order.
pub open spec fn repetition_facts(
    ms: Seq<Tagged>,
    n: int,
    lookback: nat,
    exact_threshold: Ratio,
    near_threshold: Ratio,
) -> Seq<SignalFacts>
    decreases n,
{
    if n <= 0 {
        Seq::empty()
    } else {
        repetition_facts(ms, n - 1, lookback, exact_threshold, near_threshold) + repetition_at(
            ms,
            n - 1,
            lookback,
            exact_threshold,
            near_threshold,
        )
    }
}

/// The messages that references point to.
spec fn refs_view(v: Seq<&TaggedMessage<'_>>) -> Seq<Tagged> {
    Seq::new(v.len(), |i: int| tagged(*v[i]))
}

fn repetition_signal(m: &TaggedMessage<'_>, p: &TaggedMessage<'_>, exact: bool) -> (r:
    SignalInstance)
    ensures
        r@ == repetition_fact(tagged(*m), tagged(*p), exact),
{
    let similarity: Ratio = m.2.ngram_similarity_with_message(&p.2);
    let mut snippet: String = if exact {
        "Exact repetition with message ".to_owned()
    } else {
        "Near-duplicate with message ".to_owned()
    };
    snippet.append(to_decimal(p.0 as u128).as_str());
    let repetition_type: String = if exact {
        "exact".to_owned()
    } else {
        "near_duplicate".to_owned()
    };
    SignalInstance::new(SignalType::StagnationRepetition, m.0, snippet.as_str()).with_confidence(
        similarity,
    ).with_metadata(
        Metadata::Repetition {
            repetition_type,
            compared_to: p.0,
            similarity,
            role: m.1.to_owned(),
        },
    )
}

fn find_repetition(
    m: &TaggedMessage<'_>,
    earlier: &Vec<&TaggedMessage<'_>>,
    lookback: usize,
    exact_threshold: Ratio,
    near_threshold: Ratio,
) -> (r: Option<SignalInstance>)
    ensures
        ({
            let window = last_n(refs_view(earlier@), lookback as nat);
            match r {
                Some(s) => repetition_of(tagged(*m), window, exact_threshold, near_threshold, 0)
                    == Some(s@),
                None => repetition_of(
                    tagged(*m),
                    window,
                    exact_threshold,
                    near_threshold,
                    0,
                ) is None,
            }
        }),
{
    let ghost window = last_n(refs_view(earlier@), lookback as nat);
    let start: usize = earlier.len().saturating_sub(lookback);
    let mut i: usize = start;
    while i < earlier.len()
        invariant
            start <= i <= earlier.len(),
            window == last_n(refs_view(earlier@), lookback as nat),
            start == (if earlier@.len() <= lookback { 0int } else { earlier@.len() - lookback }),
            repetition_of(tagged(*m), window, exact_threshold, near_threshold, 0) == repetition_of(
                tagged(*m),
                window,
                exact_threshold,
                near_threshold,
                i - start,
            ),
        decreases earlier.len() - i,
    {
        let p: &TaggedMessage<'_> = earlier[i];
        proof {
            assert(window[i - start] == tagged(*p));
            assert(p.2@.tokens.len() == p.2.tokens@.len());
        }
        if p.2.tokens.len() >= 5 {
            let similarity: Ratio = m.2.ngram_similarity_with_message(&p.2);
            if similarity.at_least(&exact_threshold) {
                return Some(repetition_signal(m, p, true));
            } else if similarity.at_least(&near_threshold) {
                return Some(repetition_signal(m, p, false));
            }
        }
        i += 1;
    }
    None
}

/// The repetition shown by a message after the earlier messages of its role.
pub fn repetition_signals(
    m: &TaggedMessage<'_>,
    earlier: &Vec<TaggedMessage<'_>>,
    lookback: usize,
    exact_threshold: Ratio,
    near_duplicate_threshold: Ratio,
) -> (r: Vec<SignalInstance>)
    ensures
        signals_view(r@) == repetition_after(
            tagged(*m),
            tagged_view(earlier@),
            lookback as nat,
            exact_threshold,
            near_duplicate_threshold,
        ),
{
    let mut r: Vec<SignalInstance> = Vec::new();
    let human: bool = same_text(m.1, "human");
    let gpt: bool = same_text(m.1, "gpt");
    let friendly: bool = human && starts_with_prefix(m.2.raw.as_str(), &POSITIVE_PREFIXES);
    assert(m.2@.tokens.len() == m.2.tokens@.len());
    if (human || gpt) && !friendly && m.2.tokens.len() >= 5 {
        let mut refs: Vec<&TaggedMessage<'_>> = Vec::new();
        let mut i: usize = 0;
        while i < earlier.len()
            invariant
                i <= earlier.len(),
                refs@.len() == i,
                forall|j: int| 0 <= j < i ==> tagged(*(#[trigger] refs@[j])) == tagged(earlier@[j]),
            decreases earlier.len() - i,
        {
            refs.push(&earlier[i]);
            i += 1;
        }
        assert(refs_view(refs@) =~= tagged_view(earlier@));
        if let Some(s) = find_repetition(
            m,
            &refs,
            lookback,
            exact_threshold,
            near_duplicate_threshold,
        ) {
            r.push(s);
        }
    }
    assert(signals_view(r@) =~= repetition_after(
        tagged(*m),
        tagged_view(earlier@),
        lookback as nat,
        exact_threshold,
        near_duplicate_threshold,
    ));
    r
}

/// Detects messages that repeat one of the last messages of the same role.
pub fn analyze_repetition(
    normalized_messages: &[TaggedMessage<'_>],
    lookback: usize,
    exact_threshold: Ratio,
    near_duplicate_threshold: Ratio,
) -> (r: SignalGroup)
    ensures
        r@ == group_of(
            "stagnation"@,
            repetition_facts(
                tagged_view(normalized_messages@),
                normalized_messages@.len() as int,
                lookback as nat,
                exact_threshold,
                near_duplicate_threshold,
            ),
        ),
{
    let ghost all = tagged_view(normalized_messages@);
    let mut found: Vec<SignalInstance> = Vec::new();
    let mut prev_human: Vec<&TaggedMessage<'_>> = Vec::new();
    let mut prev_gpt: Vec<&TaggedMessage<'_>> = Vec::new();
    let mut i: usize = 0;
    proof {
        assert(signals_view(found@) =~= Seq::empty());
        assert(refs_view(prev_human@) =~= Seq::empty());
        assert(refs_view(prev_gpt@) =~= Seq::empty());
        reveal_strlit("human");
        reveal_strlit("gpt");
        assert("human"@.len() != "gpt"@.len());
    }
    while i < normalized_messages.len()
        invariant
            i <= normalized_messages.len(),
            all == tagged_view(normalized_messages@),
            "human"@ != "gpt"@,
            signals_view(found@) == repetition_facts(
                all,
                i as int,
                lookback as nat,
                exact_threshold,
                near_duplicate_threshold,
            ),
            refs_view(prev_human@) == of_role(all.take(i as int), "human"@),
            refs_view(prev_gpt@) == of_role(all.take(i as int), "gpt"@),
        decreases normalized_messages.len() - i,
    {
        let m: &TaggedMessage<'_> = &normalized_messages[i];
        let ghost before = signals_view(found@);
        let ghost shown = repetition_at(
            all,
            i as int,
            lookback as nat,
            exact_threshold,
            near_duplicate_threshold,
        );
        proof {
            let next = all.take(i + 1);
            assert(next.drop_last() =~= all.take(i as int));
            assert(next.last() == all[i as int]);
            assert(all[i as int] == tagged(*m));
            assert(m.2@.tokens.len() == m.2.tokens@.len());
            assert(refs_view(prev_human@.push(m)) =~= refs_view(prev_human@).push(tagged(*m)));
            assert(refs_view(prev_gpt@.push(m)) =~= refs_view(prev_gpt@).push(tagged(*m)));
        }
        let human: bool = same_text(m.1, "human");
        let gpt: bool = same_text(m.1, "gpt");
        let friendly: bool = human && starts_with_prefix(m.2.raw.as_str(), &POSITIVE_PREFIXES);
        if (human || gpt) && !friendly && m.2.tokens.len() >= 5 {
            let hit: Option<SignalInstance> = if human {
                find_repetition(m, &prev_human, lookback, exact_threshold, near_duplicate_threshold)
            } else {
                find_repetition(m, &prev_gpt, lookback, exact_threshold, near_duplicate_threshold)
            };
            if let Some(s) = hit {
                proof {
                    lemma_signals_push(found@, s);
                    assert(before.push(s@) =~= before + seq![s@]);
                }
                found.push(s);
            } else {
                assert(before =~= before + shown);
            }
        } else {
            assert(before =~= before + shown);
        }
        if human {
            prev_human.push(m);
        } else if gpt {
            prev_gpt.push(m);
        }
        i += 1;
    }
    make_group("stagnation", found)
}

/// Combined stagnation analyzer: dragging + repetition.
pub fn analyze_stagnation(
    messages: &[ShareGptMsg<'_>],
    normalized_messages: &[TaggedMessage<'_>],
    baseline_turns: usize,
) -> (r: (SignalGroup, TurnMetrics))
    ensures
        r.1 == metrics_of(
            turns_of(messages@, "human"@),
            turns_of(messages@, "gpt"@),
            baseline_turns as nat,
            Ratio { num: 50, den: 100 },
        ),
        r.1.well_formed(),
        r.1.user_turns == turns_of(messages@, "human"@),
        r.0@ == group_of(
            "stagnation"@,
            dragging_facts(r.1, messages@.len(), baseline_turns as nat) + repetition_facts(
                tagged_view(normalized_messages@),
                normalized_messages@.len() as int,
                2,
                Ratio { num: 95, den: 100 },
                Ratio { num: 85, den: 100 },
            ),
        ),
{
    let (dragging, metrics) = analyze_dragging(messages, baseline_turns, Ratio::new(50, 100));
    let repetition: SignalGroup = analyze_repetition(
        normalized_messages,
        2,
        Ratio::new(95, 100),
        Ratio::new(85, 100),
    );
    let mut signals: Vec<SignalInstance> = dragging.signals;
    extend_signals(&mut signals, &repetition.signals);
    (make_group("stagnation", signals), metrics)
}

} // verus!
