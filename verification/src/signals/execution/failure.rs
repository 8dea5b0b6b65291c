//! Execution failure detector.

use crate::json::{json_members, parse_members};
use crate::natural::Ratio;
use crate::signals::analyzer::{rows, Row, ShareGptMessage};
use crate::signals::execution::loops::{args_of, named_args, named_tool, tool_of};
use crate::signals::patterns::{find_any, first_match, snippet, snippet_around, span_view, Span};
use crate::signals::schemas::{
    group_of, lemma_signals_push, make_group, signals_view, Metadata, MetadataFacts, SignalFacts,
    SignalGroup, SignalInstance, SignalType,
};
use crate::text::{
    byte_slice, contains, head, lowercase, occurs_in, same_text, slice_bytes, take_chars,
};
use vstd::prelude::*;

verus! {

pub const INVALID_ARGS_PATTERNS: [&'static str; 21] = [
    r"invalid\s+argument",
    r"invalid\s+parameter",
    r"invalid\s+type",
    r"type\s*error",
    r"expected\s+\w+\s*,?\s*got\s+\w+",
    r"required\s+field",
    r"required\s+parameter",
    r"missing\s+required",
    r"missing\s+argument",
    r"validation\s+failed",
    r"validation\s+error",
    r"invalid\s+value",
    r"invalid\s+format",
    r"must\s+be\s+(a|an)\s+\w+",
    r"cannot\s+be\s+(null|empty|none)",
    r"is\s+not\s+valid",
    r"does\s+not\s+match",
    r"out\s+of\s+range",
    r"invalid\s+date",
    r"invalid\s+json",
    r"malformed\s+request",
];

pub const BAD_QUERY_PATTERNS: [&'static str; 15] = [
    r"invalid\s+query",
    r"query\s+syntax\s+error",
    r"malformed\s+query",
    r"unknown\s+field",
    r"invalid\s+field",
    r"invalid\s+filter",
    r"invalid\s+search",
    r"unknown\s+id",
    r"invalid\s+id",
    r"id\s+format\s+error",
    r"invalid\s+identifier",
    r"query\s+failed",
    r"search\s+error",
    r"invalid\s+operator",
    r"unsupported\s+query",
];

pub const TOOL_NOT_FOUND_PATTERNS: [&'static str; 11] = [
    r"unknown\s+function",
    r"unknown\s+tool",
    r"function\s+not\s+found",
    r"tool\s+not\s+found",
    r"no\s+such\s+function",
    r"no\s+such\s+tool",
    r"undefined\s+function",
    r"action\s+not\s+supported",
    r"invalid\s+tool",
    r"invalid\s+function",
    r"unrecognized\s+function",
];

pub const AUTH_MISUSE_PATTERNS: [&'static str; 14] = [
    r"\bunauthorized\b",
    r"(status|error|http|code)\s*:?\s*401",
    r"401\s+unauthorized",
    r"403\s+forbidden",
    r"permission\s+denied",
    r"access\s+denied",
    r"authentication\s+required",
    r"invalid\s+credentials",
    r"invalid\s+token",
    r"token\s+expired",
    r"missing\s+authorization",
    r"\bforbidden\b",
    r"not\s+authorized",
    r"insufficient\s+permissions?",
];

pub const STATE_ERROR_PATTERNS: [&'static str; 15] = [
    r"invalid\s+state",
    r"illegal\s+state",
    r"must\s+call\s+\w+\s+first",
    r"must\s+\w+\s+before",
    r"cannot\s+\w+\s+before",
    r"already\s+(exists?|created|started|finished)",
    r"not\s+initialized",
    r"not\s+started",
    r"already\s+in\s+progress",
    r"operation\s+in\s+progress",
    r"sequence\s+error",
    r"precondition\s+failed",
    r"(status|error|http)\s*:?\s*409",
    r"409\s+conflict",
    r"\bconflict\b",
];

/// Context kept on either side of a match, in bytes.
pub const SNIPPET_CONTEXT: usize = 50;

/// The tool name and the arguments in the text of a call: those of the JSON
/// call object, or `unknown` and the beginning of the text.
pub open spec fn tool_info(value: Seq<char>) -> (Seq<char>, Seq<char>) {
    match json_members(value) {
        Some(members) => (named_tool(members), named_args(members)),
        None => ("unknown"@, head(value, 200)),
    }
}

/// Pull tool name + args from a `function_call` message.
pub(crate) fn extract_tool_info(value: &str) -> (r: (String, String))
    ensures
        (r.0@, r.1@) == tool_info(value@),
{
    match parse_members(value) {
        Some(members) => (tool_of(&members), args_of(&members)),
        None => ("unknown".to_owned(), take_chars(value, 200)),
    }
}

/// Where the patterns of each kind of failure first match in an observation.
#[derive(Debug, Clone, Copy)]
pub struct FailureMatches {
    pub invalid_args: Option<Span>,
    pub tool_not_found: Option<Span>,
    pub auth_misuse: Option<Span>,
    pub state_error: Option<Span>,
    pub bad_query: Option<Span>,
}

/// The offsets of a [`FailureMatches`].
pub struct FailureSpans {
    pub invalid_args: Option<(int, int)>,
    pub tool_not_found: Option<(int, int)>,
    pub auth_misuse: Option<(int, int)>,
    pub state_error: Option<(int, int)>,
    pub bad_query: Option<(int, int)>,
}

impl View for FailureMatches {
    type V = FailureSpans;

    open spec fn view(&self) -> FailureSpans {
        FailureSpans {
            invalid_args: span_view(self.invalid_args),
            tool_not_found: span_view(self.tool_not_found),
            auth_misuse: span_view(self.auth_misuse),
            state_error: span_view(self.state_error),
            bad_query: span_view(self.bad_query),
        }
    }
}

impl FailureMatches {
    /// Whether every match is one in `text`.
    pub open spec fn lie_in(self, text: Seq<char>) -> bool {
        &&& self.invalid_args is Some ==> self.invalid_args->0.lies_in(text)
        &&& self.tool_not_found is Some ==> self.tool_not_found->0.lies_in(text)
        &&& self.auth_misuse is Some ==> self.auth_misuse->0.lies_in(text)
        &&& self.state_error is Some ==> self.state_error->0.lies_in(text)
        &&& self.bad_query is Some ==> self.bad_query->0.lies_in(text)
    }
}

/// Where the patterns of each kind of failure first match in `lower`.
pub open spec fn failure_spans(lower: Seq<char>) -> FailureSpans {
    FailureSpans {
        invalid_args: first_match(INVALID_ARGS_PATTERNS@, lower),
        tool_not_found: first_match(TOOL_NOT_FOUND_PATTERNS@, lower),
        auth_misuse: first_match(AUTH_MISUSE_PATTERNS@, lower),
        state_error: first_match(STATE_ERROR_PATTERNS@, lower),
        bad_query: first_match(BAD_QUERY_PATTERNS@, lower),
    }
}

/// The signal of one kind of failure.
pub open spec fn failure_fact(
    signal_type: SignalType,
    value: Seq<char>,
    index: nat,
    call_index: nat,
    tool: Seq<char>,
    span: (int, int),
    hundredths: u128,
    error_type: Seq<char>,
) -> SignalFacts {
    SignalFacts {
        signal_type,
        message_index: index,
        snippet: snippet(value, span.0, span.1, SNIPPET_CONTEXT as int),
        confidence: Ratio { num: hundredths, den: 100 },
        metadata: MetadataFacts::Failure {
            tool_name: tool,
            call_index,
            error_type,
            matched: byte_slice(lowercase(value), span.0, span.1),
        },
    }
}

/// Whether an observation speaks of an error in so many words.
pub open spec fn names_error(lower: Seq<char>) -> bool {
    occurs_in(lower, "error"@) || occurs_in(lower, "invalid"@) || occurs_in(lower, "failed"@)
}

/// The failure that an observation reports, given where the patterns match
/// in its lower case: the first kind, in this order, that matches.
pub open spec fn failure_of(
    value: Seq<char>,
    index: nat,
    call_index: nat,
    tool: Seq<char>,
    m: FailureSpans,
) -> Option<SignalFacts> {
    if m.invalid_args is Some {
        Some(
            failure_fact(
                SignalType::ExecutionFailureInvalidArgs,
                value,
                index,
                call_index,
                tool,
                m.invalid_args->0,
                90,
                "invalid_args"@,
            ),
        )
    } else if m.tool_not_found is Some {
        Some(
            failure_fact(
                SignalType::ExecutionFailureToolNotFound,
                value,
                index,
                call_index,
                tool,
                m.tool_not_found->0,
                95,
                "tool_not_found"@,
            ),
        )
    } else if m.auth_misuse is Some {
        Some(
            failure_fact(
                SignalType::ExecutionFailureAuthMisuse,
                value,
                index,
                call_index,
                tool,
                m.auth_misuse->0,
                80,
                "auth_misuse"@,
            ),
        )
    } else if m.state_error is Some {
        Some(
            failure_fact(
                SignalType::ExecutionFailureStateError,
                value,
                index,
                call_index,
                tool,
                m.state_error->0,
                85,
                "state_error"@,
            ),
        )
    } else if m.bad_query is Some {
        Some(
            failure_fact(
                SignalType::ExecutionFailureBadQuery,
                value,
                index,
                call_index,
                tool,
                m.bad_query->0,
                if names_error(lowercase(value)) { 80 } else { 60 },
                "bad_query"@,
            ),
        )
    } else {
        None
    }
}

fn failure_signal(
    signal_type: SignalType,
    value: &str,
    lower: &str,
    index: usize,
    call_index: usize,
    tool_name: &str,
    m: Span,
    hundredths: u128,
    error_type: &str,
) -> (r: SignalInstance)
    requires
        lower@ == lowercase(value@),
        m.lies_in(lower@),
    ensures
        r@ == failure_fact(
            signal_type,
            value@,
            index as nat,
            call_index as nat,
            tool_name@,
            (m.start as int, m.end as int),
            hundredths,
            error_type@,
        ),
{
    let around: String = snippet_around(value, m, SNIPPET_CONTEXT);
    SignalInstance::new(signal_type, index, around.as_str()).with_confidence(
        Ratio::new(hundredths, 100),
    ).with_metadata(
        Metadata::Failure {
            tool_name: tool_name.to_owned(),
            call_index,
            error_type: error_type.to_owned(),
            matched: slice_bytes(lower, m.start, m.end),
        },
    )
}

/// Classifies an observation by the matches found in its lower case.
pub fn classify_failure(
    value: &str,
    lower: &str,
    index: usize,
    call_index: usize,
    tool_name: &str,
    m: &FailureMatches,
) -> (r: Option<SignalInstance>)
    requires
        lower@ == lowercase(value@),
        m.lie_in(lower@),
    ensures
        match r {
            Some(s) => failure_of(value@, index as nat, call_index as nat, tool_name@, m@) == Some(s@),
            None => failure_of(value@, index as nat, call_index as nat, tool_name@, m@) is None,
        },
{
    if let Some(s) = m.invalid_args {
        return Some(
            failure_signal(
                SignalType::ExecutionFailureInvalidArgs,
                value,
                lower,
                index,
                call_index,
                tool_name,
                s,
                90,
                "invalid_args",
            ),
        );
    }
    if let Some(s) = m.tool_not_found {
        return Some(
            failure_signal(
                SignalType::ExecutionFailureToolNotFound,
                value,
                lower,
                index,
                call_index,
                tool_name,
                s,
                95,
                "tool_not_found",
            ),
        );
    }
    if let Some(s) = m.auth_misuse {
        return Some(
            failure_signal(
                SignalType::ExecutionFailureAuthMisuse,
                value,
                lower,
                index,
                call_index,
                tool_name,
                s,
                80,
                "auth_misuse",
            ),
        );
    }
    if let Some(s) = m.state_error {
        return Some(
            failure_signal(
                SignalType::ExecutionFailureStateError,
                value,
                lower,
                index,
                call_index,
                tool_name,
                s,
                85,
                "state_error",
            ),
        );
    }
    if let Some(s) = m.bad_query {
        let hundredths: u128 = if contains(lower, "error") || contains(lower, "invalid") || contains(
            lower,
            "failed",
        ) {
            80
        } else {
            60
        };
        return Some(
            failure_signal(
                SignalType::ExecutionFailureBadQuery,
                value,
                lower,
                index,
                call_index,
                tool_name,
                s,
                hundredths,
                "bad_query",
            ),
        );
    }
    None
}

/// The index and the tool of the last call of a conversation whose first row
/// is number `base`.
pub open spec fn last_call(conversation: Seq<Row>, base: nat) -> Option<(nat, Seq<char>)>
    decreases conversation.len(),
{
    if conversation.len() == 0 {
        None
    } else if conversation.last().from == "function_call"@ {
        Some(((base + conversation.len() - 1) as nat, tool_info(conversation.last().value).0))
    } else {
        last_call(conversation.drop_last(), base)
    }
}

/// The failure that observation `index` reports, after the given last call.
pub open spec fn observed_failure(
    value: Seq<char>,
    index: nat,
    call: Option<(nat, Seq<char>)>,
) -> Option<SignalFacts> {
    let (call_index, tool) = match call {
        Some(c) => c,
        None => ((if index == 0 { 0 } else { index - 1 }) as nat, "unknown"@),
    };
    failure_of(value, index, call_index, tool, failure_spans(lowercase(value)))
}

/// The failure reported by a row, if it is an observation that reports one.
pub open spec fn failure_in(row: Row, index: nat, call: Option<(nat, Seq<char>)>) -> Seq<
    SignalFacts,
> {
    if row.from != "observation"@ {
        Seq::empty()
    } else {
        match observed_failure(row.value, index, call) {
            Some(f) => seq![f],
            None => Seq::empty(),
        }
    }
}

/// The failure reported by row `i`.
pub open spec fn failure_at(conversation: Seq<Row>, base: nat, i: int) -> Seq<SignalFacts> {
    failure_in(conversation[i], (base + i) as nat, last_call(conversation.take(i), base))
}

/// The failures of the first `n` rows, in order.
pub open spec fn failure_facts(conversation: Seq<Row>, base: nat, n: int) -> Seq<SignalFacts>
    decreases n,
{
    if n <= 0 {
        Seq::empty()
    } else {
        failure_facts(conversation, base, n - 1) + failure_at(conversation, base, n - 1)
    }
}

/// The failure that an observation reports, after the given last call.
pub fn observe_failure(
    value: &str,
    index: usize,
    last: &Option<(usize, String)>,
) -> (r: Option<SignalInstance>)
    ensures
        ({
            let call = match *last {
                Some(c) => Some((c.0 as nat, c.1@)),
                None => None,
            };
            match r {
                Some(s) => observed_failure(value@, index as nat, call) == Some(s@),
                None => observed_failure(value@, index as nat, call) is None,
            }
        }),
{
    let lower: String = value.to_lowercase();
    let m: FailureMatches = FailureMatches {
        invalid_args: find_any(&INVALID_ARGS_PATTERNS, lower.as_str()),
        tool_not_found: find_any(&TOOL_NOT_FOUND_PATTERNS, lower.as_str()),
        auth_misuse: find_any(&AUTH_MISUSE_PATTERNS, lower.as_str()),
        state_error: find_any(&STATE_ERROR_PATTERNS, lower.as_str()),
        bad_query: find_any(&BAD_QUERY_PATTERNS, lower.as_str()),
    };
    match last {
        Some(c) => classify_failure(value, lower.as_str(), index, c.0, c.1.as_str(), &m),
        None => classify_failure(
            value,
            lower.as_str(),
            index,
            index.saturating_sub(1),
            "unknown",
            &m,
        ),
    }
}

/// The failures of a conversation.
pub fn analyze_failure(messages: &[ShareGptMessage<'_>]) -> (r: SignalGroup)
    ensures
        r@ == group_of("failure"@, failure_facts(rows(messages@), 0, messages@.len() as int)),
{
    let n: usize = messages.len();
    assert(messages@.len() == n);
    analyze_failure_from(messages, 0)
}

/// The failures of the end of a conversation, from row number `base` on.
pub fn analyze_failure_from(messages: &[ShareGptMessage<'_>], base: usize) -> (r: SignalGroup)
    requires
        base + messages@.len() <= usize::MAX,
    ensures
        r@ == group_of(
            "failure"@,
            failure_facts(rows(messages@), base as nat, messages@.len() as int),
        ),
{
    let ghost all = rows(messages@);
    let mut found: Vec<SignalInstance> = Vec::new();
    let mut last: Option<(usize, String)> = None;
    let mut i: usize = 0;
    assert(signals_view(found@) =~= Seq::empty());
    while i < messages.len()
        invariant
            i <= messages.len(),
            all == rows(messages@),
            base + messages@.len() <= usize::MAX,
            signals_view(found@) == failure_facts(all, base as nat, i as int),
            match last {
                Some(c) => last_call(all.take(i as int), base as nat) == Some((c.0 as nat, c.1@)),
                None => last_call(all.take(i as int), base as nat) is None,
            },
        decreases messages.len() - i,
    {
        let msg: &ShareGptMessage<'_> = &messages[i];
        proof {
            let next = all.take(i + 1);
            assert(next.drop_last() =~= all.take(i as int));
            assert(next.last() == all[i as int]);
            assert(all[i as int] == msg@);
        }
        if same_text(msg.from, "function_call") {
            proof {
                reveal_strlit("function_call");
                reveal_strlit("observation");
                assert("function_call"@.len() != "observation"@.len());
                assert(signals_view(found@) =~= signals_view(found@) + failure_at(all, base as nat, i as int));
            }
            let info: (String, String) = extract_tool_info(msg.value);
            last = Some((base + i, info.0));
        } else if same_text(msg.from, "observation") {
            if let Some(s) = observe_failure(msg.value, base + i, &last) {
                proof {
                    lemma_signals_push(found@, s);
                    assert(signals_view(found@).push(s@) =~= signals_view(found@) + seq![s@]);
                }
                found.push(s);
            } else {
                assert(signals_view(found@) =~= signals_view(found@) + failure_at(all, base as nat, i as int));
            }
        } else {
            assert(signals_view(found@) =~= signals_view(found@) + failure_at(all, base as nat, i as int));
        }
        i += 1;
    }
    make_group("failure", found)
}

} // verus!
