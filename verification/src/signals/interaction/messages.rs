//! What the interaction detectors read: normalized messages with their place
//! and role, and tables of phrases.

use crate::natural::Ratio;
use crate::signals::schemas::{
    certain, Metadata, MetadataFacts, SignalFacts, SignalInstance, SignalType,
};
use crate::signals::text_processing::{
    pattern_matches, pattern_texts, patterns_view, MessageText, NormalizedMessage,
    NormalizedPattern, PatternText,
};
use vstd::prelude::*;

verus! {

/// Normalized message tagged with its absolute index and role.
pub type TaggedMessage<'a> = (usize, &'a str, NormalizedMessage);

/// What a tagged message says.
pub struct Tagged {
    pub index: nat,
    pub role: Seq<char>,
    pub text: MessageText,
}

/// What one tagged message says.
pub open spec fn tagged(m: TaggedMessage<'_>) -> Tagged {
    Tagged { index: m.0 as nat, role: m.1@, text: m.2@ }
}

/// What a sequence of tagged messages says.
pub open spec fn tagged_view(v: Seq<TaggedMessage<'_>>) -> Seq<Tagged> {
    Seq::new(v.len(), |i: int| tagged(v[i]))
}

/// The thresholds of the fuzzy layers of pattern matching.
#[derive(Debug, Clone, Copy, PartialEq, Eq, Structural)]
pub struct Thresholds {
    pub char_ngram: Ratio,
    pub token_cosine: Ratio,
}

/// Whether a message matches a pattern.
pub open spec fn hits(m: MessageText, p: PatternText, t: Thresholds) -> bool {
    pattern_matches(m, p, t.char_ngram, t.token_cosine)
}

/// The first of the patterns from `i` on that the message matches.
pub open spec fn first_hit(m: MessageText, table: Seq<PatternText>, t: Thresholds, i: int) -> Option<
    PatternText,
>
    decreases table.len() - i,
{
    if i >= table.len() {
        None
    } else if hits(m, table[i], t) {
        Some(table[i])
    } else {
        first_hit(m, table, t, i + 1)
    }
}

/// The first phrase of a table that the message matches.
pub open spec fn phrase_hit(
    m: MessageText,
    phrases: Seq<&'static str>,
    t: Thresholds,
) -> Option<PatternText> {
    first_hit(m, pattern_texts(phrases), t, 0)
}

/// Finds the first pattern that a message matches.
pub fn find_pattern<'a>(
    m: &NormalizedMessage,
    table: &'a Vec<NormalizedPattern>,
    t: Thresholds,
) -> (r: Option<&'a NormalizedPattern>)
    ensures
        match r {
            Some(p) => first_hit(m@, patterns_view(table@), t, 0) == Some(p@),
            None => first_hit(m@, patterns_view(table@), t, 0) is None,
        },
{
    let mut i: usize = 0;
    while i < table.len()
        invariant
            i <= table.len(),
            first_hit(m@, patterns_view(table@), t, 0) == first_hit(
                m@,
                patterns_view(table@),
                t,
                i as int,
            ),
        decreases table.len() - i,
    {
        assert(patterns_view(table@)[i as int] == table@[i as int]@);
        if m.matches_normalized_pattern(&table[i], t.char_ngram, t.token_cosine) {
            return Some(&table[i]);
        }
        i += 1;
    }
    None
}

/// The signal of a phrase from a pattern table.
pub open spec fn phrase_fact(
    signal_type: SignalType,
    index: nat,
    raw: Seq<char>,
    pattern_type: Seq<char>,
) -> SignalFacts {
    SignalFacts {
        signal_type,
        message_index: index,
        snippet: raw,
        confidence: certain(),
        metadata: MetadataFacts::Pattern { pattern_type },
    }
}

/// The signal of a phrase from a pattern table.
pub fn phrase_signal(
    signal_type: SignalType,
    index: usize,
    pattern: &NormalizedPattern,
    pattern_type: &str,
) -> (r: SignalInstance)
    ensures
        r@ == phrase_fact(signal_type, index as nat, pattern@.raw, pattern_type@),
{
    SignalInstance::new(signal_type, index, pattern.raw.as_str()).with_metadata(
        Metadata::Pattern { pattern_type: pattern_type.to_owned() },
    )
}

/// At most one signal: that of the phrase found, if any.
pub open spec fn phrase_facts(
    hit: Option<PatternText>,
    signal_type: SignalType,
    index: nat,
    pattern_type: Seq<char>,
) -> Seq<SignalFacts> {
    match hit {
        Some(p) => seq![phrase_fact(signal_type, index, p.raw, pattern_type)],
        None => Seq::empty(),
    }
}

} // verus!
