//! Misalignment signals: corrections, rephrases, clarifications.

use crate::natural::Ratio;
use crate::signals::interaction::constants::{
    has_prefix, is_stopword, starts_with_prefix, stopword, CONFIRMATION_PREFIXES,
};
use crate::signals::interaction::messages::{
    find_pattern, phrase_fact, phrase_hit, phrase_signal, tagged, tagged_view, Tagged,
    TaggedMessage, Thresholds,
};
use crate::signals::schemas::{
    group_of, lemma_signals_push, make_group, signals_view, Metadata, MetadataFacts, SignalFacts,
    SignalGroup, SignalInstance, SignalType,
};
use crate::signals::text_processing::{
    normalize_patterns, pattern_texts, patterns_view, shared, shared_count, MessageText,
    NormalizedMessage, NormalizedPattern,
};
use crate::text::{holds_text, lemma_texts_push, same_text, texts};
use vstd::prelude::*;

verus! {

pub const CORRECTION_PATTERN_TEXTS: [&'static str; 28] = [
    "no, i meant",
    "no i meant",
    "no, i said",
    "no i said",
    "no, i asked",
    "no i asked",
    "nah, i meant",
    "nope, i meant",
    "not what i said",
    "not what i asked",
    "that's not what i said",
    "that's not what i asked",
    "that's not what i meant",
    "thats not what i said",
    "thats not what i asked",
    "thats not what i meant",
    "that's not what you",
    "no that's not what i",
    "no, that's not what i",
    "you're not quite right",
    "youre not quite right",
    "you're not exactly right",
    "youre not exactly right",
    "you're wrong about",
    "youre wrong about",
    "i just said",
    "i already said",
    "i already told you",
];

pub const REPHRASE_PATTERN_TEXTS: [&'static str; 5] = [
    "let me rephrase",
    "let me explain again",
    "what i'm trying to say",
    "what i'm saying is",
    "in other words",
];

pub const CLARIFICATION_PATTERN_TEXTS: [&'static str; 27] = [
    "i don't understand",
    "don't understand",
    "not understanding",
    "can't understand",
    "don't get it",
    "don't follow",
    "i'm confused",
    "so confused",
    "makes no sense",
    "doesn't make sense",
    "not making sense",
    "what do you mean",
    "what does that mean",
    "what are you saying",
    "i'm lost",
    "totally lost",
    "lost me",
    "no clue what you",
    "no idea what you",
    "no clue what that",
    "no idea what that",
    "come again",
    "say that again",
    "repeat that",
    "trouble following",
    "hard to follow",
    "can't follow",
];

/// The distinct tokens that are not stopwords.
pub open spec fn meaningful(tokens: Seq<Seq<char>>) -> Seq<Seq<char>>
    decreases tokens.len(),
{
    if tokens.len() == 0 {
        Seq::empty()
    } else {
        let rest = meaningful(tokens.drop_last());
        if is_stopword(tokens.last()) || rest.contains(tokens.last()) {
            rest
        } else {
            rest.push(tokens.last())
        }
    }
}

fn meaningful_tokens(tokens: &Vec<String>) -> (r: Vec<String>)
    ensures
        texts(r@) == meaningful(texts(tokens@)),
{
    let ghost all = texts(tokens@);
    let mut r: Vec<String> = Vec::new();
    let mut i: usize = 0;
    assert(texts(r@) =~= Seq::empty());
    while i < tokens.len()
        invariant
            i <= tokens.len(),
            all == texts(tokens@),
            texts(r@) == meaningful(all.take(i as int)),
        decreases tokens.len() - i,
    {
        proof {
            let next = all.take(i + 1);
            assert(next.drop_last() =~= all.take(i as int));
            assert(next.last() == tokens@[i as int]@);
        }
        if !stopword(tokens[i].as_str()) && !holds_text(&r, tokens[i].as_str()) {
            let t: String = tokens[i].clone();
            proof {
                lemma_texts_push(r@, t);
            }
            r.push(t);
        }
        i += 1;
    }
    assert(all.take(tokens@.len() as int) =~= all);
    r
}

/// Whether the first message says again what the second said: both have
/// enough meaningful tokens, little of the first is new, and they overlap.
pub open spec fn rephrases(
    m1: MessageText,
    m2: MessageText,
    overlap_threshold: Ratio,
    min_meaningful_tokens: nat,
    max_new_content_ratio: Ratio,
) -> bool {
    let t1 = meaningful(m1.tokens);
    let t2 = meaningful(m2.tokens);
    let common = shared(t1, t2);
    let smaller = if t1.len() <= t2.len() { t1.len() } else { t2.len() };
    let new_content = if t1.len() == 0 {
        Ratio { num: 0, den: 1 }
    } else {
        Ratio { num: (t1.len() - common) as u128, den: t1.len() as u128 }
    };
    &&& m1.tokens.len() >= 3
    &&& m2.tokens.len() >= 3
    &&& !has_prefix(m1.raw, CONFIRMATION_PREFIXES@)
    &&& t1.len() >= min_meaningful_tokens
    &&& t2.len() >= min_meaningful_tokens
    &&& max_new_content_ratio.spec_at_least(new_content)
    &&& smaller > 0
    &&& (Ratio { num: common as u128, den: smaller as u128 }).spec_at_least(overlap_threshold)
}

/// Detect whether two user messages appear to be rephrases of each other.
pub fn is_similar_rephrase(
    norm_msg1: &NormalizedMessage,
    norm_msg2: &NormalizedMessage,
    overlap_threshold: Ratio,
    min_meaningful_tokens: usize,
    max_new_content_ratio: Ratio,
) -> (b: bool)
    ensures
        b == rephrases(
            norm_msg1@,
            norm_msg2@,
            overlap_threshold,
            min_meaningful_tokens as nat,
            max_new_content_ratio,
        ),
{
    assert(norm_msg1@.tokens.len() == norm_msg1.tokens@.len());
    assert(norm_msg2@.tokens.len() == norm_msg2.tokens@.len());
    if norm_msg1.tokens.len() < 3 || norm_msg2.tokens.len() < 3 {
        return false;
    }
    if starts_with_prefix(norm_msg1.raw.as_str(), &CONFIRMATION_PREFIXES) {
        return false;
    }
    let tokens1: Vec<String> = meaningful_tokens(&norm_msg1.tokens);
    let tokens2: Vec<String> = meaningful_tokens(&norm_msg2.tokens);
    assert(texts(tokens1@).len() == tokens1@.len());
    assert(texts(tokens2@).len() == tokens2@.len());
    if tokens1.len() < min_meaningful_tokens || tokens2.len() < min_meaningful_tokens {
        return false;
    }
    let common: usize = shared_count(&tokens1, &tokens2);
    let new_content: Ratio = if tokens1.len() == 0 {
        Ratio::new(0, 1)
    } else {
        Ratio::new((tokens1.len() - common) as u128, tokens1.len() as u128)
    };
    if !max_new_content_ratio.at_least(&new_content) {
        return false;
    }
    let smaller: usize = if tokens1.len() <= tokens2.len() { tokens1.len() } else { tokens2.len() };
    if smaller == 0 {
        return false;
    }
    Ratio::new(common as u128, smaller as u128).at_least(&overlap_threshold)
}

/// The last message of a user.
pub open spec fn last_human(ms: Seq<Tagged>) -> Option<Tagged>
    decreases ms.len(),
{
    if ms.len() == 0 {
        None
    } else if ms.last().role == "human"@ {
        Some(ms.last())
    } else {
        last_human(ms.drop_last())
    }
}

/// The signal of a message that rephrases an earlier one.
pub open spec fn rephrase_fact(index: nat, compared_to: nat) -> SignalFacts {
    SignalFacts {
        signal_type: SignalType::MisalignmentRephrase,
        message_index: index,
        snippet: "[similar rephrase detected]"@,
        confidence: Ratio { num: 80, den: 100 },
        metadata: MetadataFacts::SemanticRephrase { compared_to },
    }
}

/// The misalignment a user message shows after the previous user message:
/// a correction, else a rephrase, else a clarification, else a rephrase of
/// a message at most three messages back.
pub open spec fn misalignment_of(m: Tagged, prev: Option<Tagged>, t: Thresholds) -> Option<
    SignalFacts,
> {
    let correction = phrase_hit(m.text, CORRECTION_PATTERN_TEXTS@, t);
    let rephrase = phrase_hit(m.text, REPHRASE_PATTERN_TEXTS@, t);
    let clarification = phrase_hit(m.text, CLARIFICATION_PATTERN_TEXTS@, t);
    if correction is Some {
        Some(
            phrase_fact(
                SignalType::MisalignmentCorrection,
                m.index,
                correction->0.raw,
                "correction"@,
            ),
        )
    } else if rephrase is Some {
        Some(
            phrase_fact(
                SignalType::MisalignmentRephrase,
                m.index,
                rephrase->0.raw,
                "rephrase"@,
            ),
        )
    } else if clarification is Some {
        Some(
            phrase_fact(
                SignalType::MisalignmentClarification,
                m.index,
                clarification->0.raw,
                "clarification"@,
            ),
        )
    } else {
        match prev {
            Some(p) if m.index <= p.index + 3 && rephrases(
                m.text,
                p.text,
                Ratio { num: 75, den: 100 },
                4,
                Ratio { num: 50, den: 100 },
            ) => Some(rephrase_fact(m.index, p.index)),
            _ => None,
        }
    }
}

/// The misalignment shown by message `i`.
pub open spec fn misalignment_at(ms: Seq<Tagged>, i: int, t: Thresholds) -> Seq<SignalFacts> {
    if ms[i].role != "human"@ {
        Seq::empty()
    } else {
        match misalignment_of(ms[i], last_human(ms.take(i)), t) {
            Some(f) => seq![f],
            None => Seq::empty(),
        }
    }
}

/// The misalignments of the first `n` messages, in order.
pub open spec fn misalignment_facts(ms: Seq<Tagged>, n: int, t: Thresholds) -> Seq<SignalFacts>
    decreases n,
{
    if n <= 0 {
        Seq::empty()
    } else {
        misalignment_facts(ms, n - 1, t) + misalignment_at(ms, n - 1, t)
    }
}

/// The tables of misalignment phrases, normalized.
struct MisalignmentTables {
    correction: Vec<NormalizedPattern>,
    rephrase: Vec<NormalizedPattern>,
    clarification: Vec<NormalizedPattern>,
}

impl MisalignmentTables {
    spec fn ready(self) -> bool {
        &&& patterns_view(self.correction@) == pattern_texts(CORRECTION_PATTERN_TEXTS@)
        &&& patterns_view(self.rephrase@) == pattern_texts(REPHRASE_PATTERN_TEXTS@)
        &&& patterns_view(self.clarification@) == pattern_texts(CLARIFICATION_PATTERN_TEXTS@)
    }

    fn new() -> (r: Self)
        ensures
            r.ready(),
    {
        MisalignmentTables {
            correction: normalize_patterns(&CORRECTION_PATTERN_TEXTS),
            rephrase: normalize_patterns(&REPHRASE_PATTERN_TEXTS),
            clarification: normalize_patterns(&CLARIFICATION_PATTERN_TEXTS),
        }
    }

    fn judge(
        &self,
        m: &TaggedMessage<'_>,
        prev: Option<&TaggedMessage<'_>>,
        t: Thresholds,
    ) -> (r: Option<SignalInstance>)
        requires
            self.ready(),
        ensures
            ({
                let before = match prev {
                    Some(p) => Some(tagged(*p)),
                    None => None,
                };
                match r {
                    Some(s) => misalignment_of(tagged(*m), before, t) == Some(s@),
                    None => misalignment_of(tagged(*m), before, t) is None,
                }
            }),
    {
        if let Some(p) = find_pattern(&m.2, &self.correction, t) {
            return Some(
                phrase_signal(SignalType::MisalignmentCorrection, m.0, p, "correction"),
            );
        }
        if let Some(p) = find_pattern(&m.2, &self.rephrase, t) {
            return Some(phrase_signal(SignalType::MisalignmentRephrase, m.0, p, "rephrase"));
        }
        if let Some(p) = find_pattern(&m.2, &self.clarification, t) {
            return Some(
                phrase_signal(SignalType::MisalignmentClarification, m.0, p, "clarification"),
            );
        }
        if let Some(p) = prev {
            if m.0.saturating_sub(p.0) <= 3 && is_similar_rephrase(
                &m.2,
                &p.2,
                Ratio::new(75, 100),
                4,
                Ratio::new(50, 100),
            ) {
                return Some(
                    SignalInstance::new(
                        SignalType::MisalignmentRephrase,
                        m.0,
                        "[similar rephrase detected]",
                    ).with_confidence(Ratio::new(80, 100)).with_metadata(
                        Metadata::SemanticRephrase { compared_to: p.0 },
                    ),
                );
            }
        }
        None
    }
}

/// The misalignment a user message shows after the previous user message.
pub fn misalignment_signal(
    m: &TaggedMessage<'_>,
    prev: Option<&TaggedMessage<'_>>,
    t: Thresholds,
) -> (r: Option<SignalInstance>)
    ensures
        ({
            let before = match prev {
                Some(p) => Some(tagged(*p)),
                None => None,
            };
            match r {
                Some(s) => misalignment_of(tagged(*m), before, t) == Some(s@),
                None => misalignment_of(tagged(*m), before, t) is None,
            }
        }),
{
    MisalignmentTables::new().judge(m, prev, t)
}

/// Analyze user messages for misalignment signals.
pub fn analyze_misalignment(
    normalized_messages: &[TaggedMessage<'_>],
    char_ngram_threshold: Ratio,
    token_cosine_threshold: Ratio,
) -> (r: SignalGroup)
    ensures
        r@ == group_of(
            "misalignment"@,
            misalignment_facts(
                tagged_view(normalized_messages@),
                normalized_messages@.len() as int,
                (Thresholds { char_ngram: char_ngram_threshold, token_cosine: token_cosine_threshold }),
            ),
        ),
{
    let t: Thresholds = Thresholds {
        char_ngram: char_ngram_threshold,
        token_cosine: token_cosine_threshold,
    };
    let tables: MisalignmentTables = MisalignmentTables::new();
    let ghost all = tagged_view(normalized_messages@);
    let mut found: Vec<SignalInstance> = Vec::new();
    let mut prev: Option<&TaggedMessage<'_>> = None;
    let mut i: usize = 0;
    assert(signals_view(found@) =~= Seq::empty());
    while i < normalized_messages.len()
        invariant
            i <= normalized_messages.len(),
            all == tagged_view(normalized_messages@),
            tables.ready(),
            signals_view(found@) == misalignment_facts(all, i as int, t),
            match prev {
                Some(p) => last_human(all.take(i as int)) == Some(tagged(*p)),
                None => last_human(all.take(i as int)) is None,
            },
        decreases normalized_messages.len() - i,
    {
        let m: &TaggedMessage<'_> = &normalized_messages[i];
        let ghost before = signals_view(found@);
        proof {
            let next = all.take(i + 1);
            assert(next.drop_last() =~= all.take(i as int));
            assert(next.last() == all[i as int]);
            assert(all[i as int] == tagged(*m));
        }
        if same_text(m.1, "human") {
            if let Some(s) = tables.judge(m, prev, t) {
                proof {
                    lemma_signals_push(found@, s);
                    assert(before.push(s@) =~= before + seq![s@]);
                }
                found.push(s);
            } else {
                assert(before =~= before + misalignment_at(all, i as int, t));
            }
            prev = Some(m);
        } else {
            assert(before =~= before + misalignment_at(all, i as int, t));
        }
        i += 1;
    }
    make_group("misalignment", found)
}

} // verus!
