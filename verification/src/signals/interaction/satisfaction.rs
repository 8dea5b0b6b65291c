//! Satisfaction signals: gratitude, confirmation, success.

use crate::natural::Ratio;
use crate::signals::interaction::messages::{
    find_pattern, phrase_fact, phrase_hit, phrase_signal, tagged, tagged_view, Tagged,
    TaggedMessage, Thresholds,
};
use crate::signals::schemas::{
    group_of, lemma_signals_push, make_group, signals_view, SignalFacts, SignalGroup,
    SignalInstance, SignalType,
};
use crate::signals::text_processing::{
    normalize_patterns, pattern_texts, patterns_view, NormalizedPattern,
};
use crate::text::same_text;
use vstd::prelude::*;

verus! {

pub const GRATITUDE_PATTERN_TEXTS: [&'static str; 13] = [
    "that's helpful",
    "that helps",
    "this helps",
    "appreciate it",
    "appreciate that",
    "that's perfect",
    "exactly what i needed",
    "just what i needed",
    "you're the best",
    "you rock",
    "you're awesome",
    "you're amazing",
    "you're great",
];

pub const CONFIRMATION_PATTERN_TEXTS: [&'static str; 9] = [
    "that works",
    "this works",
    "that's great",
    "that's amazing",
    "this is great",
    "that's awesome",
    "love it",
    "love this",
    "love that",
];

pub const SUCCESS_PATTERN_TEXTS: [&'static str; 6] = [
    "it worked",
    "that worked",
    "this worked",
    "it's working",
    "that's working",
    "this is working",
];

/// The satisfaction a user message shows: gratitude, else confirmation, else
/// success.
pub open spec fn satisfaction_of(m: Tagged, t: Thresholds) -> Option<SignalFacts> {
    let gratitude = phrase_hit(m.text, GRATITUDE_PATTERN_TEXTS@, t);
    let confirmation = phrase_hit(m.text, CONFIRMATION_PATTERN_TEXTS@, t);
    let success = phrase_hit(m.text, SUCCESS_PATTERN_TEXTS@, t);
    if gratitude is Some {
        Some(
            phrase_fact(
                SignalType::SatisfactionGratitude,
                m.index,
                gratitude->0.raw,
                "gratitude"@,
            ),
        )
    } else if confirmation is Some {
        Some(
            phrase_fact(
                SignalType::SatisfactionConfirmation,
                m.index,
                confirmation->0.raw,
                "confirmation"@,
            ),
        )
    } else if success is Some {
        Some(phrase_fact(SignalType::SatisfactionSuccess, m.index, success->0.raw, "success"@))
    } else {
        None
    }
}

/// The satisfaction shown by a message.
pub open spec fn satisfaction_at(m: Tagged, t: Thresholds) -> Seq<SignalFacts> {
    if m.role != "human"@ {
        Seq::empty()
    } else {
        match satisfaction_of(m, t) {
            Some(f) => seq![f],
            None => Seq::empty(),
        }
    }
}

/// The satisfactions of the first `n` messages, in order.
pub open spec fn satisfaction_facts(ms: Seq<Tagged>, n: int, t: Thresholds) -> Seq<SignalFacts>
    decreases n,
{
    if n <= 0 {
        Seq::empty()
    } else {
        satisfaction_facts(ms, n - 1, t) + satisfaction_at(ms[n - 1], t)
    }
}

/// The tables of satisfaction phrases, normalized.
struct SatisfactionTables {
    gratitude: Vec<NormalizedPattern>,
    confirmation: Vec<NormalizedPattern>,
    success: Vec<NormalizedPattern>,
}

impl SatisfactionTables {
    spec fn ready(self) -> bool {
        &&& patterns_view(self.gratitude@) == pattern_texts(GRATITUDE_PATTERN_TEXTS@)
        &&& patterns_view(self.confirmation@) == pattern_texts(CONFIRMATION_PATTERN_TEXTS@)
        &&& patterns_view(self.success@) == pattern_texts(SUCCESS_PATTERN_TEXTS@)
    }

    fn new() -> (r: Self)
        ensures
            r.ready(),
    {
        SatisfactionTables {
            gratitude: normalize_patterns(&GRATITUDE_PATTERN_TEXTS),
            confirmation: normalize_patterns(&CONFIRMATION_PATTERN_TEXTS),
            success: normalize_patterns(&SUCCESS_PATTERN_TEXTS),
        }
    }

    fn judge(&self, m: &TaggedMessage<'_>, t: Thresholds) -> (r: Option<SignalInstance>)
        requires
            self.ready(),
        ensures
            match r {
                Some(s) => satisfaction_of(tagged(*m), t) == Some(s@),
                None => satisfaction_of(tagged(*m), t) is None,
            },
    {
        if let Some(p) = find_pattern(&m.2, &self.gratitude, t) {
            return Some(phrase_signal(SignalType::SatisfactionGratitude, m.0, p, "gratitude"));
        }
        if let Some(p) = find_pattern(&m.2, &self.confirmation, t) {
            return Some(
                phrase_signal(SignalType::SatisfactionConfirmation, m.0, p, "confirmation"),
            );
        }
        if let Some(p) = find_pattern(&m.2, &self.success, t) {
            return Some(phrase_signal(SignalType::SatisfactionSuccess, m.0, p, "success"));
        }
        None
    }
}

/// The satisfaction a user message shows.
pub fn satisfaction_signal(m: &TaggedMessage<'_>, t: Thresholds) -> (r: Option<SignalInstance>)
    ensures
        match r {
            Some(s) => satisfaction_of(tagged(*m), t) == Some(s@),
            None => satisfaction_of(tagged(*m), t) is None,
        },
{
    SatisfactionTables::new().judge(m, t)
}

/// Analyze user messages for satisfaction signals.
pub fn analyze_satisfaction(
    normalized_messages: &[TaggedMessage<'_>],
    char_ngram_threshold: Ratio,
    token_cosine_threshold: Ratio,
) -> (r: SignalGroup)
    ensures
        r@ == group_of(
            "satisfaction"@,
            satisfaction_facts(
                tagged_view(normalized_messages@),
                normalized_messages@.len() as int,
                (Thresholds { char_ngram: char_ngram_threshold, token_cosine: token_cosine_threshold }),
            ),
        ),
{
    let t: Thresholds = Thresholds {
        char_ngram: char_ngram_threshold,
        token_cosine: token_cosine_threshold,
    };
    let tables: SatisfactionTables = SatisfactionTables::new();
    let ghost all = tagged_view(normalized_messages@);
    let mut found: Vec<SignalInstance> = Vec::new();
    let mut i: usize = 0;
    assert(signals_view(found@) =~= Seq::empty());
    while i < normalized_messages.len()
        invariant
            i <= normalized_messages.len(),
            all == tagged_view(normalized_messages@),
            tables.ready(),
            signals_view(found@) == satisfaction_facts(all, i as int, t),
        decreases normalized_messages.len() - i,
    {
        let m: &TaggedMessage<'_> = &normalized_messages[i];
        let ghost before = signals_view(found@);
        assert(all[i as int] == tagged(*m));
        if same_text(m.1, "human") {
            if let Some(s) = tables.judge(m, t) {
                proof {
                    lemma_signals_push(found@, s);
                    assert(before.push(s@) =~= before + seq![s@]);
                }
                found.push(s);
            } else {
                assert(before =~= before + satisfaction_at(all[i as int], t));
            }
        } else {
            assert(before =~= before + satisfaction_at(all[i as int], t));
        }
        i += 1;
    }
    make_group("satisfaction", found)
}

} // verus!
