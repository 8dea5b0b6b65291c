//! Environment exhaustion detector.

use crate::natural::Ratio;
use crate::signals::analyzer::{rows, Row, ShareGptMessage};
use crate::signals::execution::failure::SNIPPET_CONTEXT;
use crate::signals::patterns::{find_any, first_match, snippet, snippet_around, span_view, Span};
use crate::signals::schemas::{
    group_of, lemma_signals_push, make_group, signals_view, Metadata, MetadataFacts, SignalFacts,
    SignalGroup, SignalInstance, SignalType,
};
use crate::text::{byte_slice, lowercase, same_text, slice_bytes};
use vstd::prelude::*;

verus! {

pub const API_ERROR_PATTERNS: [&'static str; 17] = [
    r"500\s*(internal\s+)?server\s+error",
    r"502\s*bad\s+gateway",
    r"503\s*service\s+unavailable",
    r"504\s*gateway\s+timeout",
    r"internal\s+server\s+error",
    r"service\s+unavailable",
    r"server\s+error",
    r"backend\s+error",
    r"upstream\s+error",
    r"service\s+temporarily\s+unavailable",
    r"maintenance\s+mode",
    r"under\s+maintenance",
    r"try\s+again\s+later",
    r"temporarily\s+unavailable",
    r"system\s+error",
    r"unexpected\s+error",
    r"unhandled\s+exception",
];

pub const TIMEOUT_PATTERNS: [&'static str; 11] = [
    r"timeout",
    r"timed?\s*out",
    r"etimedout",
    r"connection\s+timed?\s*out",
    r"read\s+timed?\s*out",
    r"request\s+timed?\s*out",
    r"gateway\s+timeout",
    r"deadline\s+exceeded",
    r"took\s+too\s+long",
    r"operation\s+timed?\s*out",
    r"socket\s+timeout",
];

pub const RATE_LIMIT_PATTERNS: [&'static str; 15] = [
    r"rate\s+limit",
    r"rate.limited",
    r"(status|error|http)\s*:?\s*429",
    r"429\s+(too\s+many|rate|limit)",
    r"too\s+many\s+requests?",
    r"quota\s+exceeded",
    r"quota\s+limit",
    r"throttl(ed|ing)",
    r"request\s+limit",
    r"api\s+limit",
    r"calls?\s+per\s+(second|minute|hour|day)",
    r"exceeded\s+.*\s+limit",
    r"slow\s+down",
    r"retry\s+after",
    r"requests?\s+exceeded",
];

pub const NETWORK_PATTERNS: [&'static str; 17] = [
    r"connection\s+refused",
    r"econnrefused",
    r"econnreset",
    r"connection\s+reset",
    r"enotfound",
    r"dns\s+(error|failure|lookup)",
    r"host\s+not\s+found",
    r"network\s+(error|failure|unreachable)",
    r"no\s+route\s+to\s+host",
    r"socket\s+error",
    r"connection\s+failed",
    r"unable\s+to\s+connect",
    r"cannot\s+connect",
    r"could\s+not\s+connect",
    r"connect\s+error",
    r"ssl\s+(error|handshake|certificate)",
    r"certificate\s+(error|invalid|expired)",
];

pub const MALFORMED_PATTERNS: [&'static str; 16] = [
    r"json\s+parse\s+error",
    r"invalid\s+json",
    r"unexpected\s+token",
    r"syntax\s+error.*json",
    r"malformed\s+(response|json|data)",
    r"unexpected\s+end\s+of",
    r"parse\s+error",
    r"parsing\s+failed",
    r"invalid\s+response",
    r"unexpected\s+response",
    r"response\s+format",
    r"missing\s+field.*response",
    r"unexpected\s+schema",
    r"schema\s+validation",
    r"deserialization\s+error",
    r"failed\s+to\s+decode",
];

pub const CONTEXT_OVERFLOW_PATTERNS: [&'static str; 10] = [
    r"context\s+(length|limit|overflow|exceeded)",
    r"token\s+(limit|overflow|exceeded)",
    r"max(imum)?\s+tokens?",
    r"input\s+too\s+(long|large)",
    r"exceeds?\s+(context|token|character|input)\s+limit",
    r"message\s+too\s+(long|large)",
    r"content\s+too\s+(long|large)",
    r"truncat(ed|ion)\s+(due\s+to|because|for)\s+(length|size|limit)",
    r"maximum\s+context",
    r"prompt\s+too\s+(long|large)",
];

/// Where the patterns of each kind of exhaustion first match in an observation.
#[derive(Debug, Clone, Copy)]
pub struct ExhaustionMatches {
    pub rate_limit: Option<Span>,
    pub api_error: Option<Span>,
    pub timeout: Option<Span>,
    pub network: Option<Span>,
    pub malformed: Option<Span>,
    pub context_overflow: Option<Span>,
}

/// The offsets of an [`ExhaustionMatches`].
pub struct ExhaustionSpans {
    pub rate_limit: Option<(int, int)>,
    pub api_error: Option<(int, int)>,
    pub timeout: Option<(int, int)>,
    pub network: Option<(int, int)>,
    pub malformed: Option<(int, int)>,
    pub context_overflow: Option<(int, int)>,
}

impl View for ExhaustionMatches {
    type V = ExhaustionSpans;

    open spec fn view(&self) -> ExhaustionSpans {
        ExhaustionSpans {
            rate_limit: span_view(self.rate_limit),
            api_error: span_view(self.api_error),
            timeout: span_view(self.timeout),
            network: span_view(self.network),
            malformed: span_view(self.malformed),
            context_overflow: span_view(self.context_overflow),
        }
    }
}

impl ExhaustionMatches {
    /// Whether every match is one in `text`.
    pub open spec fn lie_in(self, text: Seq<char>) -> bool {
        &&& self.rate_limit is Some ==> self.rate_limit->0.lies_in(text)
        &&& self.api_error is Some ==> self.api_error->0.lies_in(text)
        &&& self.timeout is Some ==> self.timeout->0.lies_in(text)
        &&& self.network is Some ==> self.network->0.lies_in(text)
        &&& self.malformed is Some ==> self.malformed->0.lies_in(text)
        &&& self.context_overflow is Some ==> self.context_overflow->0.lies_in(text)
    }
}

/// Where the patterns of each kind of exhaustion first match in `lower`.
pub open spec fn exhaustion_spans(lower: Seq<char>) -> ExhaustionSpans {
    ExhaustionSpans {
        rate_limit: first_match(RATE_LIMIT_PATTERNS@, lower),
        api_error: first_match(API_ERROR_PATTERNS@, lower),
        timeout: first_match(TIMEOUT_PATTERNS@, lower),
        network: first_match(NETWORK_PATTERNS@, lower),
        malformed: first_match(MALFORMED_PATTERNS@, lower),
        context_overflow: first_match(CONTEXT_OVERFLOW_PATTERNS@, lower),
    }
}

/// The signal of one kind of exhaustion.
pub open spec fn exhaustion_fact(
    signal_type: SignalType,
    value: Seq<char>,
    index: nat,
    span: (int, int),
    hundredths: u128,
    exhaustion_type: Seq<char>,
) -> SignalFacts {
    SignalFacts {
        signal_type,
        message_index: index,
        snippet: snippet(value, span.0, span.1, SNIPPET_CONTEXT as int),
        confidence: Ratio { num: hundredths, den: 100 },
        metadata: MetadataFacts::Exhaustion {
            exhaustion_type,
            matched: byte_slice(lowercase(value), span.0, span.1),
        },
    }
}

/// The exhaustion that an observation reports, given where the patterns
/// match in its lower case: the first kind, in this order, that matches.
pub open spec fn exhaustion_of(value: Seq<char>, index: nat, m: ExhaustionSpans) -> Option<
    SignalFacts,
> {
    if m.rate_limit is Some {
        Some(
            exhaustion_fact(
                SignalType::EnvironmentExhaustionRateLimit,
                value,
                index,
                m.rate_limit->0,
                95,
                "rate_limit"@,
            ),
        )
    } else if m.api_error is Some {
        Some(
            exhaustion_fact(
                SignalType::EnvironmentExhaustionApiError,
                value,
                index,
                m.api_error->0,
                90,
                "api_error"@,
            ),
        )
    } else if m.timeout is Some {
        Some(
            exhaustion_fact(
                SignalType::EnvironmentExhaustionTimeout,
                value,
                index,
                m.timeout->0,
                90,
                "timeout"@,
            ),
        )
    } else if m.network is Some {
        Some(
            exhaustion_fact(
                SignalType::EnvironmentExhaustionNetwork,
                value,
                index,
                m.network->0,
                90,
                "network"@,
            ),
        )
    } else if m.malformed is Some {
        Some(
            exhaustion_fact(
                SignalType::EnvironmentExhaustionMalformed,
                value,
                index,
                m.malformed->0,
                85,
                "malformed_response"@,
            ),
        )
    } else if m.context_overflow is Some {
        Some(
            exhaustion_fact(
                SignalType::EnvironmentExhaustionContextOverflow,
                value,
                index,
                m.context_overflow->0,
                90,
                "context_overflow"@,
            ),
        )
    } else {
        None
    }
}

fn emit(
    signal_type: SignalType,
    value: &str,
    lower: &str,
    index: usize,
    m: Span,
    hundredths: u128,
    exhaustion_type: &str,
) -> (r: SignalInstance)
    requires
        lower@ == lowercase(value@),
        m.lies_in(lower@),
    ensures
        r@ == exhaustion_fact(
            signal_type,
            value@,
            index as nat,
            (m.start as int, m.end as int),
            hundredths,
            exhaustion_type@,
        ),
{
    let around: String = snippet_around(value, m, SNIPPET_CONTEXT);
    SignalInstance::new(signal_type, index, around.as_str()).with_confidence(
        Ratio::new(hundredths, 100),
    ).with_metadata(
        Metadata::Exhaustion {
            exhaustion_type: exhaustion_type.to_owned(),
            matched: slice_bytes(lower, m.start, m.end),
        },
    )
}

/// Classifies an observation by the matches found in its lower case.
pub fn classify_exhaustion(
    value: &str,
    lower: &str,
    index: usize,
    m: &ExhaustionMatches,
) -> (r: Option<SignalInstance>)
    requires
        lower@ == lowercase(value@),
        m.lie_in(lower@),
    ensures
        match r {
            Some(s) => exhaustion_of(value@, index as nat, m@) == Some(s@),
            None => exhaustion_of(value@, index as nat, m@) is None,
        },
{
    if let Some(s) = m.rate_limit {
        return Some(
            emit(SignalType::EnvironmentExhaustionRateLimit, value, lower, index, s, 95, "rate_limit"),
        );
    }
    if let Some(s) = m.api_error {
        return Some(
            emit(SignalType::EnvironmentExhaustionApiError, value, lower, index, s, 90, "api_error"),
        );
    }
    if let Some(s) = m.timeout {
        return Some(
            emit(SignalType::EnvironmentExhaustionTimeout, value, lower, index, s, 90, "timeout"),
        );
    }
    if let Some(s) = m.network {
        return Some(
            emit(SignalType::EnvironmentExhaustionNetwork, value, lower, index, s, 90, "network"),
        );
    }
    if let Some(s) = m.malformed {
        return Some(
            emit(SignalType::EnvironmentExhaustionMalformed, value, lower, index, s, 85, "malformed_response"),
        );
    }
    if let Some(s) = m.context_overflow {
        return Some(
            emit(SignalType::EnvironmentExhaustionContextOverflow, value, lower, index, s, 90, "context_overflow"),
        );
    }
    None
}

/// The exhaustion that observation `index` reports.
pub open spec fn observed_exhaustion(value: Seq<char>, index: nat) -> Option<SignalFacts> {
    exhaustion_of(value, index, exhaustion_spans(lowercase(value)))
}

/// The exhaustion reported by a row, if it is an observation that reports one.
pub open spec fn exhaustion_at(row: Row, i: nat) -> Seq<SignalFacts> {
    if row.from != "observation"@ {
        Seq::empty()
    } else {
        match observed_exhaustion(row.value, i) {
            Some(f) => seq![f],
            None => Seq::empty(),
        }
    }
}

/// The exhaustions of the first `n` rows of a conversation whose first row is
/// number `base`, in order.
pub open spec fn exhaustion_facts(conversation: Seq<Row>, base: nat, n: int) -> Seq<SignalFacts>
    decreases n,
{
    if n <= 0 {
        Seq::empty()
    } else {
        exhaustion_facts(conversation, base, n - 1) + exhaustion_at(
            conversation[n - 1],
            (base + n - 1) as nat,
        )
    }
}

/// The exhaustion that an observation reports.
pub fn observe_exhaustion(value: &str, index: usize) -> (r: Option<SignalInstance>)
    ensures
        match r {
            Some(s) => observed_exhaustion(value@, index as nat) == Some(s@),
            None => observed_exhaustion(value@, index as nat) is None,
        },
{
    let lower: String = value.to_lowercase();
    let m: ExhaustionMatches = ExhaustionMatches {
        rate_limit: find_any(&RATE_LIMIT_PATTERNS, lower.as_str()),
        api_error: find_any(&API_ERROR_PATTERNS, lower.as_str()),
        timeout: find_any(&TIMEOUT_PATTERNS, lower.as_str()),
        network: find_any(&NETWORK_PATTERNS, lower.as_str()),
        malformed: find_any(&MALFORMED_PATTERNS, lower.as_str()),
        context_overflow: find_any(&CONTEXT_OVERFLOW_PATTERNS, lower.as_str()),
    };
    classify_exhaustion(value, lower.as_str(), index, &m)
}

/// The exhaustions of a conversation.
pub fn analyze_exhaustion(messages: &[ShareGptMessage<'_>]) -> (r: SignalGroup)
    ensures
        r@ == group_of("exhaustion"@, exhaustion_facts(rows(messages@), 0, messages@.len() as int)),
{
    let n: usize = messages.len();
    assert(messages@.len() == n);
    analyze_exhaustion_from(messages, 0)
}

/// The exhaustions of the end of a conversation, from row number `base` on.
pub fn analyze_exhaustion_from(messages: &[ShareGptMessage<'_>], base: usize) -> (r: SignalGroup)
    requires
        base + messages@.len() <= usize::MAX,
    ensures
        r@ == group_of(
            "exhaustion"@,
            exhaustion_facts(rows(messages@), base as nat, messages@.len() as int),
        ),
{
    let ghost all = rows(messages@);
    let mut found: Vec<SignalInstance> = Vec::new();
    let mut i: usize = 0;
    assert(signals_view(found@) =~= Seq::empty());
    while i < messages.len()
        invariant
            i <= messages.len(),
            all == rows(messages@),
            base + messages@.len() <= usize::MAX,
            signals_view(found@) == exhaustion_facts(all, base as nat, i as int),
        decreases messages.len() - i,
    {
        let msg: &ShareGptMessage<'_> = &messages[i];
        let ghost before = signals_view(found@);
        assert(all[i as int] == msg@);
        if same_text(msg.from, "observation") {
            if let Some(s) = observe_exhaustion(msg.value, base + i) {
                proof {
                    lemma_signals_push(found@, s);
                    assert(before.push(s@) =~= before + seq![s@]);
                }
                found.push(s);
            } else {
                assert(before =~= before + exhaustion_at(all[i as int], (base + i) as nat));
            }
        } else {
            assert(before =~= before + exhaustion_at(all[i as int], (base + i) as nat));
        }
        i += 1;
    }
    make_group("exhaustion", found)
}

} // verus!
