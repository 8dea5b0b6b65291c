//! Disengagement signals: escalation, quit, negative stance.

use crate::natural::Ratio;
use crate::signals::interaction::constants::{has_prefix, starts_with_prefix, POSITIVE_PREFIXES};
use crate::signals::interaction::messages::{
    find_pattern, phrase_facts, phrase_hit, phrase_signal, tagged, tagged_view, Tagged,
    TaggedMessage, Thresholds,
};
use crate::signals::patterns::{count_regex, regex_count};
use crate::signals::schemas::{
    certain, extend_signals, group_of, lemma_signals_push, make_group, signals_view, Metadata,
    MetadataFacts, SignalFacts, SignalGroup, SignalInstance, SignalType,
};
use crate::signals::text_processing::{
    normalize_patterns, pattern_texts, patterns_view, NormalizedPattern, PatternText,
};
use crate::text::{
    char_is_alphabetic, char_is_uppercase, chars_of, head, same_text, take_chars,
};
use vstd::prelude::*;

verus! {

pub const ESCALATION_PATTERN_TEXTS: [&'static str; 78] = [
    // Human requests
    "speak to a human",
    "talk to a human",
    "connect me to a human",
    "connect me with a human",
    "transfer me to a human",
    "get me a human",
    "chat with a human",
    // Person requests
    "speak to a person",
    "talk to a person",
    "connect me to a person",
    "connect me with a person",
    "transfer me to a person",
    "get me a person",
    "chat with a person",
    // Real person requests
    "speak to a real person",
    "talk to a real person",
    "connect me to a real person",
    "connect me with a real person",
    "transfer me to a real person",
    "get me a real person",
    "chat with a real person",
    // Actual person requests
    "speak to an actual person",
    "talk to an actual person",
    "connect me to an actual person",
    "connect me with an actual person",
    "transfer me to an actual person",
    "get me an actual person",
    "chat with an actual person",
    // Supervisor requests
    "speak to a supervisor",
    "talk to a supervisor",
    "connect me to a supervisor",
    "connect me with a supervisor",
    "transfer me to a supervisor",
    "get me a supervisor",
    "chat with a supervisor",
    // Manager requests
    "speak to a manager",
    "talk to a manager",
    "connect me to a manager",
    "connect me with a manager",
    "transfer me to a manager",
    "get me a manager",
    "chat with a manager",
    // Customer service requests
    "speak to customer service",
    "talk to customer service",
    "connect me to customer service",
    "connect me with customer service",
    "transfer me to customer service",
    "get me customer service",
    "chat with customer service",
    // Customer support requests
    "speak to customer support",
    "talk to customer support",
    "connect me to customer support",
    "connect me with customer support",
    "transfer me to customer support",
    "get me customer support",
    "chat with customer support",
    // Support requests
    "speak to support",
    "talk to support",
    "connect me to support",
    "connect me with support",
    "transfer me to support",
    "get me support",
    "chat with support",
    // Tech support requests
    "speak to tech support",
    "talk to tech support",
    "connect me to tech support",
    "connect me with tech support",
    "transfer me to tech support",
    "get me tech support",
    "chat with tech support",
    // Help desk requests
    "speak to help desk",
    "talk to help desk",
    "connect me to help desk",
    "connect me with help desk",
    "transfer me to help desk",
    "get me help desk",
    "chat with help desk",
    // Explicit escalation
    "escalate this",
];

pub const QUIT_PATTERN_TEXTS: [&'static str; 19] = [
    "i give up",
    "i'm giving up",
    "im giving up",
    "i'm going to quit",
    "i quit",
    "forget it",
    "forget this",
    "screw it",
    "screw this",
    "don't bother trying",
    "don't bother with this",
    "don't bother with it",
    "don't even bother",
    "why bother",
    "not worth it",
    "this is hopeless",
    "going elsewhere",
    "try somewhere else",
    "look elsewhere",
];

pub const NEGATIVE_STANCE_PATTERN_TEXTS: [&'static str; 43] = [
    "this is useless",
    "not helpful",
    "doesn't help",
    "not helping",
    "you're not helping",
    "youre not helping",
    "this doesn't work",
    "this doesnt work",
    "this isn't working",
    "this isnt working",
    "still doesn't work",
    "still doesnt work",
    "still not working",
    "still isn't working",
    "still isnt working",
    "waste of time",
    "wasting my time",
    "this is ridiculous",
    "this is absurd",
    "this is insane",
    "this is stupid",
    "this is dumb",
    "this sucks",
    "this is frustrating",
    "not good enough",
    "why can't you",
    "why cant you",
    "same issue",
    "did that already",
    "done that already",
    "tried that already",
    "already tried that",
    "i've done that",
    "ive done that",
    "i've tried that",
    "ive tried that",
    "i'm disappointed",
    "im disappointed",
    "disappointed with you",
    "disappointed in you",
    "useless bot",
    "dumb bot",
    "stupid bot",
];

pub const AGENT_DIRECTED_PROFANITY_PATTERN_TEXTS: [&'static str; 37] = [
    "this is bullshit",
    "what bullshit",
    "such bullshit",
    "total bullshit",
    "complete bullshit",
    "this is crap",
    "what crap",
    "this is shit",
    "what the hell is wrong with you",
    "what the fuck is wrong with you",
    "you're fucking useless",
    "youre fucking useless",
    "you are fucking useless",
    "fucking useless",
    "this bot is shit",
    "this bot is crap",
    "damn bot",
    "fucking bot",
    "stupid fucking",
    "are you fucking kidding",
    "wtf is wrong with you",
    "wtf is this",
    "ffs just",
    "for fucks sake",
    "for fuck's sake",
    "what the f**k",
    "what the f*ck",
    "what the f***",
    "that's bullsh*t",
    "thats bullsh*t",
    "that's bull***t",
    "thats bull***t",
    "that's bs",
    "thats bs",
    "this is bullsh*t",
    "this is bull***t",
    "this is bs",
];

/// Characters of a message quoted in a signal.
pub const QUOTED_CHARS: usize = 50;

/// The number of alphabetic characters of a text.
pub open spec fn letters(s: Seq<char>) -> nat
    decreases s.len(),
{
    if s.len() == 0 {
        0
    } else {
        letters(s.drop_last()) + if char_is_alphabetic(s.last()) { 1nat } else { 0 }
    }
}

/// The number of alphabetic characters of a text that are upper case.
pub open spec fn capitals(s: Seq<char>) -> nat
    decreases s.len(),
{
    if s.len() == 0 {
        0
    } else {
        capitals(s.drop_last()) + if char_is_alphabetic(s.last()) && char_is_uppercase(s.last()) {
            1nat
        } else {
            0
        }
    }
}

fn count_letters(s: &str) -> (r: (usize, usize))
    ensures
        r.0 == letters(s@),
        r.1 == capitals(s@),
{
    let chars: Vec<char> = chars_of(s);
    let mut all: usize = 0;
    let mut upper: usize = 0;
    let mut i: usize = 0;
    while i < chars.len()
        invariant
            i <= chars.len(),
            chars@ == s@,
            all <= i,
            upper <= i,
            all == letters(s@.take(i as int)),
            upper == capitals(s@.take(i as int)),
        decreases chars.len() - i,
    {
        proof {
            let next = s@.take(i + 1);
            assert(next.drop_last() =~= s@.take(i as int));
            assert(next.last() == s@[i as int]);
        }
        if chars[i].is_alphabetic() {
            all += 1;
            if chars[i].is_uppercase() {
                upper += 1;
            }
        }
        i += 1;
    }
    assert(s@.take(s@.len() as int) =~= s@);
    (all, upper)
}

/// The signal of a negative stance, quoting the message.
pub open spec fn stance_fact(index: nat, raw: Seq<char>, metadata: MetadataFacts) -> SignalFacts {
    SignalFacts {
        signal_type: SignalType::DisengagementNegativeStance,
        message_index: index,
        snippet: head(raw, QUOTED_CHARS as nat),
        confidence: certain(),
        metadata,
    }
}

/// Shouting: at least ten letters, of which at least four fifths are capitals.
pub open spec fn shouting_facts(index: nat, raw: Seq<char>) -> Seq<SignalFacts> {
    let upper_ratio = Ratio { num: capitals(raw) as u128, den: letters(raw) as u128 };
    if letters(raw) >= 10 && upper_ratio.spec_at_least(Ratio { num: 80, den: 100 }) {
        seq![stance_fact(index, raw, MetadataFacts::AllCaps { upper_ratio })]
    } else {
        Seq::empty()
    }
}

/// Excessive punctuation, given the numbers of runs of question marks, of
/// exclamation marks and of both mixed; a friendly opening excuses it.
pub open spec fn punctuation_facts(
    index: nat,
    raw: Seq<char>,
    friendly: bool,
    questions: nat,
    exclamations: nat,
    mixed: nat,
) -> Seq<SignalFacts> {
    if !friendly && (questions >= 1 || exclamations >= 1 || mixed >= 1) {
        seq![
            stance_fact(
                index,
                raw,
                MetadataFacts::ExcessivePunctuation {
                    consecutive_questions: questions,
                    consecutive_exclamations: exclamations,
                    mixed_punctuation: mixed,
                },
            ),
        ]
    } else {
        Seq::empty()
    }
}

/// The signal of a phrase held against the agent.
pub open spec fn phrase_stance_facts(index: nat, hit: Option<PatternText>, profane: bool) -> Seq<
    SignalFacts,
> {
    match hit {
        Some(p) => seq![
            SignalFacts {
                signal_type: SignalType::DisengagementNegativeStance,
                message_index: index,
                snippet: p.raw,
                confidence: certain(),
                metadata: if profane {
                    MetadataFacts::Profanity { pattern: p.raw }
                } else {
                    MetadataFacts::Complaint { pattern: p.raw }
                },
            },
        ],
        None => Seq::empty(),
    }
}

/// The signals of the phrases of a message: escalation, quitting, profanity
/// and, with neither escalation nor profanity, complaint.
pub open spec fn phrases_of(m: Tagged, t: Thresholds) -> Seq<SignalFacts> {
    let escalation = phrase_hit(m.text, ESCALATION_PATTERN_TEXTS@, t);
    let quit = phrase_hit(m.text, QUIT_PATTERN_TEXTS@, t);
    let profanity = phrase_hit(m.text, AGENT_DIRECTED_PROFANITY_PATTERN_TEXTS@, t);
    let complaint = if escalation is None && profanity is None {
        phrase_hit(m.text, NEGATIVE_STANCE_PATTERN_TEXTS@, t)
    } else {
        None
    };
    phrase_facts(escalation, SignalType::DisengagementEscalation, m.index, "escalation"@)
        + phrase_facts(quit, SignalType::DisengagementQuit, m.index, "quit"@)
        + phrase_stance_facts(m.index, profanity, true) + phrase_stance_facts(
        m.index,
        complaint,
        false,
    )
}

/// The disengagement a user message shows.
pub open spec fn disengagement_of(m: Tagged, t: Thresholds) -> Seq<SignalFacts> {
    shouting_facts(m.index, m.text.raw) + punctuation_facts(
        m.index,
        m.text.raw,
        has_prefix(m.text.raw, POSITIVE_PREFIXES@),
        regex_count("\\?{2,}"@, m.text.raw),
        regex_count("!{2,}"@, m.text.raw),
        regex_count("[?!]{3,}"@, m.text.raw),
    ) + phrases_of(m, t)
}

/// The disengagement shown by a message.
pub open spec fn disengagement_at(m: Tagged, t: Thresholds) -> Seq<SignalFacts> {
    if m.role != "human"@ { Seq::empty() } else { disengagement_of(m, t) }
}

/// The disengagements of the first `n` messages, in order.
pub open spec fn disengagement_facts(ms: Seq<Tagged>, n: int, t: Thresholds) -> Seq<SignalFacts>
    decreases n,
{
    if n <= 0 {
        Seq::empty()
    } else {
        disengagement_facts(ms, n - 1, t) + disengagement_at(ms[n - 1], t)
    }
}

/// The signals of shouting.
pub fn shouting_signals(index: usize, raw: &str) -> (r: Vec<SignalInstance>)
    ensures
        signals_view(r@) == shouting_facts(index as nat, raw@),
{
    let (all, upper) = count_letters(raw);
    let upper_ratio: Ratio = Ratio::new(upper as u128, all as u128);
    let mut r: Vec<SignalInstance> = Vec::new();
    if all >= 10 && upper_ratio.at_least(&Ratio::new(80, 100)) {
        let quoted: String = take_chars(raw, QUOTED_CHARS);
        r.push(
            SignalInstance::new(
                SignalType::DisengagementNegativeStance,
                index,
                quoted.as_str(),
            ).with_metadata(Metadata::AllCaps { upper_ratio }),
        );
    }
    assert(signals_view(r@) =~= shouting_facts(index as nat, raw@));
    r
}

/// The signals of excessive punctuation, given the numbers of runs.
pub fn punctuation_signals(
    index: usize,
    raw: &str,
    friendly: bool,
    questions: usize,
    exclamations: usize,
    mixed: usize,
) -> (r: Vec<SignalInstance>)
    ensures
        signals_view(r@) == punctuation_facts(
            index as nat,
            raw@,
            friendly,
            questions as nat,
            exclamations as nat,
            mixed as nat,
        ),
{
    let mut r: Vec<SignalInstance> = Vec::new();
    if !friendly && (questions >= 1 || exclamations >= 1 || mixed >= 1) {
        let quoted: String = take_chars(raw, QUOTED_CHARS);
        r.push(
            SignalInstance::new(
                SignalType::DisengagementNegativeStance,
                index,
                quoted.as_str(),
            ).with_metadata(
                Metadata::ExcessivePunctuation {
                    consecutive_questions: questions,
                    consecutive_exclamations: exclamations,
                    mixed_punctuation: mixed,
                },
            ),
        );
    }
    assert(signals_view(r@) =~= punctuation_facts(
        index as nat,
        raw@,
        friendly,
        questions as nat,
        exclamations as nat,
        mixed as nat,
    ));
    r
}

/// The tables of disengagement phrases, normalized.
struct DisengagementTables {
    escalation: Vec<NormalizedPattern>,
    quit: Vec<NormalizedPattern>,
    profanity: Vec<NormalizedPattern>,
    complaint: Vec<NormalizedPattern>,
}

impl DisengagementTables {
    spec fn ready(self) -> bool {
        &&& patterns_view(self.escalation@) == pattern_texts(ESCALATION_PATTERN_TEXTS@)
        &&& patterns_view(self.quit@) == pattern_texts(QUIT_PATTERN_TEXTS@)
        &&& patterns_view(self.profanity@) == pattern_texts(AGENT_DIRECTED_PROFANITY_PATTERN_TEXTS@)
        &&& patterns_view(self.complaint@) == pattern_texts(NEGATIVE_STANCE_PATTERN_TEXTS@)
    }

    fn new() -> (r: Self)
        ensures
            r.ready(),
    {
        DisengagementTables {
            escalation: normalize_patterns(&ESCALATION_PATTERN_TEXTS),
            quit: normalize_patterns(&QUIT_PATTERN_TEXTS),
            profanity: normalize_patterns(&AGENT_DIRECTED_PROFANITY_PATTERN_TEXTS),
            complaint: normalize_patterns(&NEGATIVE_STANCE_PATTERN_TEXTS),
        }
    }

    fn phrases(&self, m: &TaggedMessage<'_>, t: Thresholds) -> (r: Vec<SignalInstance>)
        requires
            self.ready(),
        ensures
            signals_view(r@) == phrases_of(tagged(*m), t),
    {
        let mut r: Vec<SignalInstance> = Vec::new();
        let ghost index = m.0 as nat;
        assert(signals_view(r@) =~= Seq::empty());
        let escalation: Option<&NormalizedPattern> = find_pattern(&m.2, &self.escalation, t);
        if let Some(p) = escalation {
            r.push(phrase_signal(SignalType::DisengagementEscalation, m.0, p, "escalation"));
        }
        let ghost part1 = phrase_facts(
            phrase_hit(m.2@, ESCALATION_PATTERN_TEXTS@, t),
            SignalType::DisengagementEscalation,
            index,
            "escalation"@,
        );
        assert(signals_view(r@) =~= part1);
        if let Some(p) = find_pattern(&m.2, &self.quit, t) {
            let s: SignalInstance = phrase_signal(SignalType::DisengagementQuit, m.0, p, "quit");
            proof {
                lemma_signals_push(r@, s);
            }
            r.push(s);
        }
        let ghost part2 = phrase_facts(
            phrase_hit(m.2@, QUIT_PATTERN_TEXTS@, t),
            SignalType::DisengagementQuit,
            index,
            "quit"@,
        );
        assert(signals_view(r@) =~= part1 + part2);
        let profanity: Option<&NormalizedPattern> = find_pattern(&m.2, &self.profanity, t);
        if let Some(p) = profanity {
            let s: SignalInstance = SignalInstance::new(
                SignalType::DisengagementNegativeStance,
                m.0,
                p.raw.as_str(),
            ).with_metadata(Metadata::Profanity { pattern: p.raw.clone() });
            proof {
                lemma_signals_push(r@, s);
            }
            r.push(s);
        }
        let ghost part3 = phrase_stance_facts(
            index,
            phrase_hit(m.2@, AGENT_DIRECTED_PROFANITY_PATTERN_TEXTS@, t),
            true,
        );
        assert(signals_view(r@) =~= part1 + part2 + part3);
        if escalation.is_none() && profanity.is_none() {
            if let Some(p) = find_pattern(&m.2, &self.complaint, t) {
                let s: SignalInstance = SignalInstance::new(
                    SignalType::DisengagementNegativeStance,
                    m.0,
                    p.raw.as_str(),
                ).with_metadata(Metadata::Complaint { pattern: p.raw.clone() });
                proof {
                    lemma_signals_push(r@, s);
                }
                r.push(s);
            }
        }
        assert(signals_view(r@) =~= phrases_of(tagged(*m), t));
        r
    }

    fn judge(&self, m: &TaggedMessage<'_>, t: Thresholds) -> (r: Vec<SignalInstance>)
        requires
            self.ready(),
        ensures
            signals_view(r@) == disengagement_of(tagged(*m), t),
    {
        let text: &str = m.2.raw.as_str();
        let mut r: Vec<SignalInstance> = shouting_signals(m.0, text);
        let friendly: bool = starts_with_prefix(text, &POSITIVE_PREFIXES);
        let questions: usize = count_regex("\\?{2,}", text);
        let exclamations: usize = count_regex("!{2,}", text);
        let mixed: usize = count_regex("[?!]{3,}", text);
        let punctuation: Vec<SignalInstance> = punctuation_signals(
            m.0,
            text,
            friendly,
            questions,
            exclamations,
            mixed,
        );
        extend_signals(&mut r, &punctuation);
        let phrases: Vec<SignalInstance> = self.phrases(m, t);
        extend_signals(&mut r, &phrases);
        r
    }
}

/// The disengagement a user message shows.
pub fn disengagement_signals(m: &TaggedMessage<'_>, t: Thresholds) -> (r: Vec<SignalInstance>)
    ensures
        signals_view(r@) == disengagement_of(tagged(*m), t),
{
    DisengagementTables::new().judge(m, t)
}

/// Analyze user messages for disengagement signals.
pub fn analyze_disengagement(
    normalized_messages: &[TaggedMessage<'_>],
    char_ngram_threshold: Ratio,
    token_cosine_threshold: Ratio,
) -> (r: SignalGroup)
    ensures
        r@ == group_of(
            "disengagement"@,
            disengagement_facts(
                tagged_view(normalized_messages@),
                normalized_messages@.len() as int,
                (Thresholds { char_ngram: char_ngram_threshold, token_cosine: token_cosine_threshold }),
            ),
        ),
{
    let t: Thresholds = Thresholds {
        char_ngram: char_ngram_threshold,
        token_cosine: token_cosine_threshold,
    };
    let tables: DisengagementTables = DisengagementTables::new();
    let ghost all = tagged_view(normalized_messages@);
    let mut found: Vec<SignalInstance> = Vec::new();
    let mut i: usize = 0;
    assert(signals_view(found@) =~= Seq::empty());
    while i < normalized_messages.len()
        invariant
            i <= normalized_messages.len(),
            all == tagged_view(normalized_messages@),
            tables.ready(),
            signals_view(found@) == disengagement_facts(all, i as int, t),
        decreases normalized_messages.len() - i,
    {
        let m: &TaggedMessage<'_> = &normalized_messages[i];
        let ghost before = signals_view(found@);
        assert(all[i as int] == tagged(*m));
        if same_text(m.1, "human") {
            let signals: Vec<SignalInstance> = tables.judge(m, t);
            extend_signals(&mut found, &signals);
        } else {
            assert(before =~= before + disengagement_at(all[i as int], t));
        }
        i += 1;
    }
    make_group("disengagement", found)
}

} // verus!
