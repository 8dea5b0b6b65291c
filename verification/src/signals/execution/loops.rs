//! Execution loops detector: retries, parameter drift and oscillation.

use crate::json::{
    compact, find_member, json_compact, json_members, json_same, json_string, keys_ascend, member,
    object_entries, object_in, object_members, parse_object, parse_string, same_objects,
    value_members,
};
use crate::natural::Ratio;
use crate::signals::analyzer::{rows, Row, ShareGptMessage};
use crate::signals::schemas::{
    extend_signals, group_of, lemma_signals_push, make_group, signals_view, Metadata,
    MetadataFacts, SignalFacts, SignalGroup, SignalInstance, SignalType,
};
use crate::signals::text_processing::distinct;
use crate::text::{
    chars_of, clone_texts, find_char, first_index, holds_text, join, joined, lemma_texts_push,
    numeral, same_text, text_of, texts, to_decimal, trim_space, trimmed_space,
};
use vstd::prelude::*;
use vstd::string::StringExecFns;

verus! {

pub const RETRY_THRESHOLD: usize = 3;

pub const PARAMETER_DRIFT_THRESHOLD: usize = 3;

pub const OSCILLATION_CYCLES_THRESHOLD: usize = 3;

/// Longest oscillation pattern length considered.
pub const MAX_OSC_PATTERN_LEN: usize = 5;

// ---------------------------------------------------------------------------
// Tool calls
// ---------------------------------------------------------------------------

/// A tool call found in a conversation.
#[derive(Debug)]
pub struct ToolCall {
    pub index: usize,
    pub name: String,
    /// Canonical JSON text of the arguments (sorted keys when parseable).
    pub args: String,
    /// The arguments as a dictionary, where they are an object.
    pub args_dict: Option<serde_json::Map<String, serde_json::Value>>,
}

/// What a [`ToolCall`] says; of a dictionary its members, by key and text.
pub struct CallFacts {
    pub index: nat,
    pub name: Seq<char>,
    pub args: Seq<char>,
    pub dict: Option<Seq<(Seq<char>, Seq<char>)>>,
}

impl View for ToolCall {
    type V = CallFacts;

    open spec fn view(&self) -> CallFacts {
        CallFacts {
            index: self.index as nat,
            name: self.name@,
            args: self.args@,
            dict: match self.args_dict {
                Some(m) => Some(object_members(m)),
                None => None,
            },
        }
    }
}

/// The calls held by a vector.
pub open spec fn calls_view(v: Seq<ToolCall>) -> Seq<CallFacts> {
    Seq::new(v.len(), |i: int| v[i]@)
}

/// Whether two calls have equal arguments: dictionaries are compared as such,
/// all else by its text. Dictionaries of different text can be equal: zero is
/// not told from negative zero.
pub open spec fn same_args(a: CallFacts, b: CallFacts) -> bool {
    match (a.dict, b.dict) {
        (Some(x), Some(y)) => x == y || json_same(x, y),
        _ => a.args == b.args,
    }
}

impl ToolCall {
    /// Whether two calls have equal arguments.
    pub fn args_equal(&self, other: &ToolCall) -> (b: bool)
        ensures
            b == same_args(self@, other@),
    {
        match (&self.args_dict, &other.args_dict) {
            (Some(a), Some(b)) => same_objects(a, b),
            _ => same_text(self.args.as_str(), other.args.as_str()),
        }
    }
}

/// The first of two members that is there.
pub open spec fn member_or(
    members: Seq<(Seq<char>, Seq<char>)>,
    key: Seq<char>,
    other: Seq<char>,
) -> Option<Seq<char>> {
    match member(members, key) {
        Some(v) => Some(v),
        None => member(members, other),
    }
}

/// The tool name in a JSON call object: the string under `name` (or
/// `function`), `unknown` when there is none.
pub open spec fn named_tool(members: Seq<(Seq<char>, Seq<char>)>) -> Seq<char> {
    match member_or(members, "name"@, "function"@) {
        Some(v) => match json_string(v) {
            Some(s) => s,
            None => "unknown"@,
        },
        None => "unknown"@,
    }
}

/// The arguments in a JSON call object: what stands under `arguments` (or
/// `args`), a string by its content and anything else by its compact text.
pub open spec fn named_args(members: Seq<(Seq<char>, Seq<char>)>) -> Seq<char> {
    match member_or(members, "arguments"@, "args"@) {
        Some(v) => match json_string(v) {
            Some(s) => s,
            None => v,
        },
        None => Seq::empty(),
    }
}

/// The arguments in a JSON call object as a dictionary, where they are one.
pub open spec fn named_dict(members: Seq<(Seq<char>, Seq<char>)>) -> Option<
    Seq<(Seq<char>, Seq<char>)>,
> {
    match member_or(members, "arguments"@, "args"@) {
        Some(v) => value_members(v),
        None => None,
    }
}

fn find_either<'a>(members: &'a Vec<(String, String)>, key: &str, other: &str) -> (r: Option<
    &'a str,
>)
    ensures
        match r {
            Some(s) => member_or(crate::json::members_view(members@), key@, other@) == Some(s@),
            None => member_or(crate::json::members_view(members@), key@, other@) is None,
        },
{
    match find_member(members, key) {
        Some(v) => Some(v),
        None => find_member(members, other),
    }
}

/// The tool name of a parsed call object.
pub(crate) fn tool_of(members: &Vec<(String, String)>) -> (r: String)
    ensures
        r@ == named_tool(crate::json::members_view(members@)),
{
    match find_either(members, "name", "function") {
        Some(v) => match parse_string(v) {
            Some(s) => s,
            None => "unknown".to_owned(),
        },
        None => "unknown".to_owned(),
    }
}

/// The arguments of a parsed call object.
pub(crate) fn args_of(members: &Vec<(String, String)>) -> (r: String)
    ensures
        r@ == named_args(crate::json::members_view(members@)),
{
    match find_either(members, "arguments", "args") {
        Some(v) => match parse_string(v) {
            Some(s) => s,
            None => v.to_owned(),
        },
        None => String::new(),
    }
}

/// The dictionary of a parsed call object.
fn dict_of(object: &serde_json::Map<String, serde_json::Value>) -> (r: Option<
    serde_json::Map<String, serde_json::Value>,
>)
    ensures
        match r {
            Some(m) => named_dict(object_members(*object)) == Some(object_members(m))
                && keys_ascend(object_members(m)),
            None => named_dict(object_members(*object)) is None,
        },
{
    let members: Vec<(String, String)> = object_entries(object);
    match find_member(&members, "arguments") {
        Some(_) => object_in(object, "arguments"),
        None => object_in(object, "args"),
    }
}

/// The arguments in parentheses: a JSON object by its compact text, anything
/// else as it stands.
pub open spec fn inner_args(inner: Seq<char>) -> Seq<char> {
    if json_members(inner) is Some {
        match json_compact(inner) {
            Some(s) => s,
            None => Seq::empty(),
        }
    } else {
        inner
    }
}

/// The call written `name(arguments)`, or a bare name.
pub open spec fn plain_call(index: nat, value: Seq<char>) -> CallFacts {
    match first_index(value, '(') {
        Some(paren) if paren > 0 => {
            let name = trimmed_space(value.take(paren));
            let rest = value.skip(paren);
            if rest.last() == ')' {
                let inner = trimmed_space(rest.subrange(1, rest.len() - 1));
                CallFacts { index, name, args: inner_args(inner), dict: json_members(inner) }
            } else {
                CallFacts { index, name, args: rest, dict: None }
            }
        },
        _ => CallFacts { index, name: trimmed_space(value), args: Seq::empty(), dict: None },
    }
}

/// The tool call that row `index` holds.
pub open spec fn call_in(index: nat, row: Row) -> Option<CallFacts> {
    if row.from != "function_call"@ {
        None
    } else {
        match json_members(row.value) {
            Some(members) => Some(
                CallFacts {
                    index,
                    name: named_tool(members),
                    args: named_args(members),
                    dict: named_dict(members),
                },
            ),
            None => Some(plain_call(index, row.value)),
        }
    }
}

fn parse_plain_call(index: usize, value: &str) -> (r: ToolCall)
    ensures
        r@ == plain_call(index as nat, value@),
        r@.dict is Some ==> keys_ascend(r@.dict->0),
{
    let chars: Vec<char> = chars_of(value);
    let n: usize = chars.len();
    if let Some(paren) = find_char(&chars, '(') {
        if paren > 0 {
            let before: String = text_of(&chars, 0, paren);
            let name: String = trim_space(before.as_str());
            assert(before@ =~= value@.take(paren as int));
            let ghost rest = value@.skip(paren as int);
            assert(rest.last() == value@[n - 1]);
            if chars[n - 1] == ')' {
                assert(paren + 1 <= n - 1) by {
                    assert(value@[paren as int] == '(');
                    assert('(' != ')');
                }
                let inner: String = trim_space(text_of(&chars, paren + 1, n - 1).as_str());
                assert(value@.subrange(paren + 1, n - 1) =~= rest.subrange(1, rest.len() - 1));
                return match parse_object(inner.as_str()) {
                    Some(m) => {
                        let args: String = match compact(inner.as_str()) {
                            Some(s) => s,
                            None => String::new(),
                        };
                        ToolCall { index, name, args, args_dict: Some(m) }
                    },
                    None => ToolCall { index, name, args: inner, args_dict: None },
                };
            }
            let args: String = text_of(&chars, paren, n);
            assert(args@ =~= rest);
            return ToolCall { index, name, args, args_dict: None };
        }
    }
    ToolCall { index, name: trim_space(value), args: String::new(), args_dict: None }
}

/// The tool call that a message holds; the keys of its arguments ascend.
pub fn parse_tool_call(index: usize, msg: &ShareGptMessage<'_>) -> (r: Option<ToolCall>)
    ensures
        match r {
            Some(c) => {
                &&& call_in(index as nat, msg@) == Some(c@)
                &&& c@.dict is Some ==> keys_ascend(c@.dict->0)
            },
            None => call_in(index as nat, msg@) is None,
        },
{
    if !same_text(msg.from, "function_call") {
        return None;
    }
    match parse_object(msg.value) {
        Some(object) => {
            let members: Vec<(String, String)> = object_entries(&object);
            Some(
                ToolCall {
                    index,
                    name: tool_of(&members),
                    args: args_of(&members),
                    args_dict: dict_of(&object),
                },
            )
        },
        None => Some(parse_plain_call(index, msg.value)),
    }
}

/// The tool calls of a conversation whose first row is number `base`, in order.
pub open spec fn calls_in(conversation: Seq<Row>, base: nat) -> Seq<CallFacts>
    decreases conversation.len(),
{
    if conversation.len() == 0 {
        Seq::empty()
    } else {
        let rest = calls_in(conversation.drop_last(), base);
        match call_in((base + conversation.len() - 1) as nat, conversation.last()) {
            Some(c) => rest.push(c),
            None => rest,
        }
    }
}

fn extract_tool_calls(messages: &[ShareGptMessage<'_>], base: usize) -> (r: Vec<ToolCall>)
    requires
        base + messages@.len() <= usize::MAX,
    ensures
        calls_view(r@) == calls_in(rows(messages@), base as nat),
{
    let mut r: Vec<ToolCall> = Vec::new();
    let mut i: usize = 0;
    assert(calls_view(r@) =~= Seq::empty());
    while i < messages.len()
        invariant
            i <= messages.len(),
            base + messages@.len() <= usize::MAX,
            calls_view(r@) == calls_in(rows(messages@).take(i as int), base as nat),
        decreases messages.len() - i,
    {
        let ghost next = rows(messages@).take(i + 1);
        assert(next.drop_last() =~= rows(messages@).take(i as int));
        assert(next.last() == messages@[i as int]@);
        if let Some(c) = parse_tool_call(base + i, &messages[i]) {
            assert(calls_view(r@.push(c)) =~= calls_view(r@).push(c@));
            r.push(c);
        }
        i += 1;
    }
    assert(rows(messages@).take(messages@.len() as int) =~= rows(messages@));
    r
}

// ---------------------------------------------------------------------------
// Runs
// ---------------------------------------------------------------------------

/// Whether two calls belong to one run: the same tool and, where `with_args`,
/// the same text of the arguments.
pub open spec fn alike(a: CallFacts, b: CallFacts, with_args: bool) -> bool {
    a.name == b.name && (with_args ==> a.args == b.args)
}

/// The maximal runs of consecutive calls that are alike, each as its first
/// position and the position after its last.
pub open spec fn runs(calls: Seq<CallFacts>, with_args: bool) -> Seq<(int, int)>
    decreases calls.len(),
{
    if calls.len() == 0 {
        Seq::empty()
    } else {
        let n = calls.len() as int;
        let before = runs(calls.drop_last(), with_args);
        if n >= 2 && alike(calls[n - 1], calls[n - 2], with_args) {
            before.update(before.len() - 1, (before.last().0, n))
        } else {
            before.push((n - 1, n))
        }
    }
}

/// The positions held by a vector of runs.
spec fn positions(v: Seq<(usize, usize)>) -> Seq<(int, int)> {
    Seq::new(v.len(), |i: int| (v[i].0 as int, v[i].1 as int))
}

/// Runs are consecutive: the first starts at 0, each starts where the one
/// before ends, and the last ends at the end.
pub(crate) proof fn lemma_runs_shape(calls: Seq<CallFacts>, with_args: bool)
    ensures
        ({
            let r = runs(calls, with_args);
            &&& calls.len() == 0 <==> r.len() == 0
            &&& calls.len() > 0 ==> r.last().1 == calls.len()
            &&& forall|k: int| 0 <= k < r.len() ==> 0 <= (#[trigger] r[k]).0 < r[k].1 <= calls.len()
            &&& forall|k: int, l: int| 0 <= k < l < r.len() ==> (#[trigger] r[k]).1 <= (#[trigger] r[l]).0
        }),
    decreases calls.len(),
{
    if calls.len() > 0 {
        lemma_runs_shape(calls.drop_last(), with_args);
    }
}

fn split_by_tool(calls: &Vec<ToolCall>) -> (r: Vec<(usize, usize)>)
    ensures
        positions(r@) == runs(calls_view(calls@), false),
{
    let ghost all = calls_view(calls@);
    let mut r: Vec<(usize, usize)> = Vec::new();
    let mut i: usize = 0;
    assert(positions(r@) =~= Seq::empty());
    while i < calls.len()
        invariant
            i <= calls.len(),
            all == calls_view(calls@),
            positions(r@) == runs(all.take(i as int), false),
        decreases calls.len() - i,
    {
        let ghost next = all.take(i + 1);
        proof {
            assert(next.drop_last() =~= all.take(i as int));
            lemma_runs_shape(all.take(i as int), false);
            assert(positions(r@).len() == r@.len());
        }
        let continues: bool = i > 0 && same_text(
            calls[i].name.as_str(),
            calls[i - 1].name.as_str(),
        );
        if i > 0 {
            assert(next[i - 1] == calls@[i - 1]@);
        }
        assert(next[i as int] == calls@[i as int]@);
        if continues {
            let last: usize = r.len() - 1;
            let start: usize = r[last].0;
            assert(positions(r@)[last as int].0 == start);
            r.set(last, (start, i + 1));
        } else {
            r.push((i, i + 1));
        }
        assert(positions(r@) =~= runs(next, false));
        i += 1;
    }
    assert(all.take(calls@.len() as int) =~= all);
    r
}

/// Where the calls from `i` on cease to be calls like the one at `i`, which
/// those from `i` to `j` are.
pub open spec fn same_until(calls: Seq<CallFacts>, i: int, j: int) -> int
    decreases calls.len() - j,
{
    if j < calls.len() && calls[j].name == calls[i].name && same_args(calls[j], calls[i]) {
        same_until(calls, i, j + 1)
    } else {
        j
    }
}

/// The retries from position `i` on: at each position the calls like the one
/// there are counted. Enough of them are a retry, and the search goes on
/// behind it; else it goes on with the next call.
pub open spec fn retries_from(calls: Seq<CallFacts>, i: int) -> Seq<(int, int)>
    decreases calls.len() - i via retries_from_ends
{
    if i < 0 || i >= calls.len() {
        Seq::empty()
    } else {
        let e = same_until(calls, i, i + 1);
        if e - i >= RETRY_THRESHOLD {
            seq![(i, e)] + retries_from(calls, e)
        } else {
            retries_from(calls, i + 1)
        }
    }
}

#[via_fn]
proof fn retries_from_ends(calls: Seq<CallFacts>, i: int) {
    if 0 <= i < calls.len() {
        lemma_same_until(calls, i, i + 1);
    }
}

proof fn lemma_same_until(calls: Seq<CallFacts>, i: int, j: int)
    requires
        0 <= i < j <= calls.len(),
    ensures
        j <= same_until(calls, i, j) <= calls.len(),
    decreases calls.len() - j,
{
    if j < calls.len() && calls[j].name == calls[i].name && same_args(calls[j], calls[i]) {
        lemma_same_until(calls, i, j + 1);
    }
}

pub(crate) proof fn lemma_retries_shape(calls: Seq<CallFacts>, i: int)
    requires
        0 <= i,
    ensures
        ({
            let r = retries_from(calls, i);
            forall|k: int|
                0 <= k < r.len() ==> i <= (#[trigger] r[k]).0 && r[k].0 + RETRY_THRESHOLD <= r[k].1
                    <= calls.len()
        }),
    decreases calls.len() - i,
{
    if i < calls.len() {
        lemma_same_until(calls, i, i + 1);
        let e = same_until(calls, i, i + 1);
        if e - i >= RETRY_THRESHOLD {
            lemma_retries_shape(calls, e);
            let rest = retries_from(calls, e);
            let r = seq![(i, e)] + rest;
            assert forall|k: int| 0 <= k < r.len() implies i <= (#[trigger] r[k]).0 && r[k].0
                + RETRY_THRESHOLD <= r[k].1 <= calls.len() by {
                if k > 0 {
                    assert(r[k] == rest[k - 1]);
                }
            }
            assert(retries_from(calls, i) == r);
        } else {
            lemma_retries_shape(calls, i + 1);
            let r = retries_from(calls, i + 1);
            assert(retries_from(calls, i) == r);
            assert forall|k: int| 0 <= k < r.len() implies i <= (#[trigger] r[k]).0 && r[k].0
                + RETRY_THRESHOLD <= r[k].1 <= calls.len() by {
                assert(i + 1 <= r[k].0);
            }
        }
    }
}

fn find_retries(calls: &Vec<ToolCall>) -> (r: Vec<(usize, usize)>)
    ensures
        positions(r@) == retries_from(calls_view(calls@), 0),
{
    let ghost all = calls_view(calls@);
    let mut r: Vec<(usize, usize)> = Vec::new();
    let mut i: usize = 0;
    assert(positions(r@) + retries_from(all, 0) =~= retries_from(all, 0));
    while i < calls.len()
        invariant
            i <= calls.len(),
            all == calls_view(calls@),
            positions(r@) + retries_from(all, i as int) == retries_from(all, 0),
        decreases calls.len() - i,
    {
        let mut j: usize = i + 1;
        while j < calls.len() && same_text(calls[j].name.as_str(), calls[i].name.as_str())
            && calls[j].args_equal(&calls[i])
            invariant
                i < j <= calls.len(),
                all == calls_view(calls@),
                same_until(all, i as int, j as int) == same_until(all, i as int, i + 1),
            decreases calls.len() - j,
        {
            assert(all[j as int] == calls@[j as int]@);
            assert(all[i as int] == calls@[i as int]@);
            j += 1;
        }
        proof {
            assert(all[i as int] == calls@[i as int]@);
            if j < calls@.len() {
                assert(all[j as int] == calls@[j as int]@);
            }
            assert(same_until(all, i as int, j as int) == j);
        }
        if j - i >= RETRY_THRESHOLD {
            let ghost before = positions(r@);
            r.push((i, j));
            proof {
                assert(positions(r@) =~= before.push((i as int, j as int)));
                assert(before + (seq![(i as int, j as int)] + retries_from(all, j as int))
                    =~= positions(r@) + retries_from(all, j as int));
            }
            i = j;
        } else {
            i += 1;
        }
    }
    assert(positions(r@) + retries_from(all, i as int) =~= positions(r@));
    r
}

// ---------------------------------------------------------------------------
// Signals
// ---------------------------------------------------------------------------

/// The signal of a retry.
pub open spec fn retry_fact(start: nat, end: nat, tool: Seq<char>, call_count: nat) -> SignalFacts {
    SignalFacts {
        signal_type: SignalType::ExecutionLoopsRetry,
        message_index: start,
        snippet: "Tool '"@ + tool + "' called "@ + numeral(call_count)
            + " times with identical arguments"@,
        confidence: Ratio { num: 95, den: 100 },
        metadata: MetadataFacts::Retry {
            tool_name: tool,
            start_index: start,
            end_index: end,
            call_count,
        },
    }
}

pub(crate) fn retry_signal(start: usize, end: usize, tool_name: &str, call_count: usize) -> (r: SignalInstance)
    ensures
        r@ == retry_fact(start as nat, end as nat, tool_name@, call_count as nat),
{
    let mut snippet: String = "Tool '".to_owned();
    snippet.append(tool_name);
    snippet.append("' called ");
    snippet.append(to_decimal(call_count as u128).as_str());
    snippet.append(" times with identical arguments");
    SignalInstance::new(SignalType::ExecutionLoopsRetry, start, snippet.as_str()).with_confidence(
        Ratio::new(95, 100),
    ).with_metadata(
        Metadata::Retry {
            tool_name: tool_name.to_owned(),
            start_index: start,
            end_index: end,
            call_count,
        },
    )
}

/// The signal of a parameter drift.
pub open spec fn drift_fact(
    start: nat,
    end: nat,
    tool: Seq<char>,
    variation_count: nat,
    call_count: nat,
) -> SignalFacts {
    SignalFacts {
        signal_type: SignalType::ExecutionLoopsParameterDrift,
        message_index: start,
        snippet: "Tool '"@ + tool + "' called "@ + numeral(call_count) + " times with "@ + numeral(
            variation_count,
        ) + " different argument variations"@,
        confidence: Ratio { num: 85, den: 100 },
        metadata: MetadataFacts::ParameterDrift {
            tool_name: tool,
            start_index: start,
            end_index: end,
            call_count,
            variation_count,
        },
    }
}

pub(crate) fn drift_signal(
    start: usize,
    end: usize,
    tool_name: &str,
    variation_count: usize,
    call_count: usize,
) -> (r: SignalInstance)
    ensures
        r@ == drift_fact(
            start as nat,
            end as nat,
            tool_name@,
            variation_count as nat,
            call_count as nat,
        ),
{
    let mut snippet: String = "Tool '".to_owned();
    snippet.append(tool_name);
    snippet.append("' called ");
    snippet.append(to_decimal(call_count as u128).as_str());
    snippet.append(" times with ");
    snippet.append(to_decimal(variation_count as u128).as_str());
    snippet.append(" different argument variations");
    SignalInstance::new(
        SignalType::ExecutionLoopsParameterDrift,
        start,
        snippet.as_str(),
    ).with_confidence(Ratio::new(85, 100)).with_metadata(
        Metadata::ParameterDrift {
            tool_name: tool_name.to_owned(),
            start_index: start,
            end_index: end,
            call_count,
            variation_count,
        },
    )
}

/// The retry signals of the given runs: one for each of at least
/// `RETRY_THRESHOLD` calls.
pub open spec fn retries_of(calls: Seq<CallFacts>, rs: Seq<(int, int)>) -> Seq<SignalFacts>
    decreases rs.len(),
{
    if rs.len() == 0 {
        Seq::empty()
    } else {
        let rest = retries_of(calls, rs.drop_last());
        let (s, e) = rs.last();
        if e - s >= RETRY_THRESHOLD {
            rest.push(
                retry_fact(calls[s].index, calls[e - 1].index, calls[s].name, (e - s) as nat),
            )
        } else {
            rest
        }
    }
}

/// The retry signals of a sequence of calls.
pub open spec fn retry_facts(calls: Seq<CallFacts>) -> Seq<SignalFacts> {
    retries_of(calls, retries_from(calls, 0))
}

/// Whether one of the runs is a retry inside `s..e`.
pub open spec fn retry_within(rs: Seq<(int, int)>, s: int, e: int) -> bool {
    exists|k: int|
        0 <= k < rs.len() && s <= (#[trigger] rs[k]).0 && rs[k].1 <= e && rs[k].1 - rs[k].0
            >= RETRY_THRESHOLD
}

/// The arguments of the calls `s..e`, each once.
pub open spec fn variations(calls: Seq<CallFacts>, s: int, e: int) -> Seq<Seq<char>> {
    distinct(Seq::new((e - s) as nat, |i: int| calls[s + i].args))
}

/// Whether the run `s..e` of one tool is a drift: long enough, with at least
/// two variations of the arguments, and without a retry inside.
pub open spec fn is_drift(calls: Seq<CallFacts>, s: int, e: int, retries: Seq<(int, int)>) -> bool {
    &&& e - s >= PARAMETER_DRIFT_THRESHOLD
    &&& variations(calls, s, e).len() >= 2
    &&& !retry_within(retries, s, e)
}

/// The drift signals of the given runs of one tool each.
pub open spec fn drifts_of(
    calls: Seq<CallFacts>,
    rs: Seq<(int, int)>,
    retries: Seq<(int, int)>,
) -> Seq<SignalFacts>
    decreases rs.len(),
{
    if rs.len() == 0 {
        Seq::empty()
    } else {
        let rest = drifts_of(calls, rs.drop_last(), retries);
        let (s, e) = rs.last();
        if is_drift(calls, s, e, retries) {
            rest.push(
                drift_fact(
                    calls[s].index,
                    calls[e - 1].index,
                    calls[s].name,
                    variations(calls, s, e).len(),
                    (e - s) as nat,
                ),
            )
        } else {
            rest
        }
    }
}

/// The drift signals of a sequence of calls.
pub open spec fn drift_facts(calls: Seq<CallFacts>) -> Seq<SignalFacts> {
    drifts_of(calls, runs(calls, false), retries_from(calls, 0))
}

fn detect_retry(calls: &Vec<ToolCall>) -> (r: Vec<SignalInstance>)
    ensures
        signals_view(r@) == retry_facts(calls_view(calls@)),
{
    let rs: Vec<(usize, usize)> = find_retries(calls);
    let ghost all = calls_view(calls@);
    let ghost pos = retries_from(all, 0);
    proof {
        lemma_retries_shape(all, 0);
    }
    let mut r: Vec<SignalInstance> = Vec::new();
    let mut i: usize = 0;
    assert(signals_view(r@) =~= Seq::empty());
    while i < rs.len()
        invariant
            i <= rs.len(),
            positions(rs@) == pos,
            all == calls_view(calls@),
            forall|k: int| 0 <= k < pos.len() ==> 0 <= (#[trigger] pos[k]).0 < pos[k].1 <= all.len(),
            signals_view(r@) == retries_of(all, pos.take(i as int)),
        decreases rs.len() - i,
    {
        let (s, e) = rs[i];
        proof {
            let next = pos.take(i + 1);
            assert(next.drop_last() =~= pos.take(i as int));
            assert(positions(rs@)[i as int] == (s as int, e as int));
            assert(next.last() == pos[i as int]);
            assert(all[s as int] == calls@[s as int]@);
            assert(all[e - 1] == calls@[e - 1]@);
        }
        if e - s >= RETRY_THRESHOLD {
            let sig: SignalInstance = retry_signal(
                calls[s].index,
                calls[e - 1].index,
                calls[s].name.as_str(),
                e - s,
            );
            proof {
                lemma_signals_push(r@, sig);
            }
            r.push(sig);
        }
        i += 1;
    }
    assert(pos.take(rs@.len() as int) =~= pos);
    r
}

fn has_retry_within(rs: &Vec<(usize, usize)>, s: usize, e: usize) -> (b: bool)
    requires
        forall|k: int| 0 <= k < rs@.len() ==> (#[trigger] rs@[k]).0 <= rs@[k].1,
    ensures
        b == retry_within(positions(rs@), s as int, e as int),
{
    let mut i: usize = 0;
    while i < rs.len()
        invariant
            i <= rs.len(),
            forall|k: int| 0 <= k < rs@.len() ==> (#[trigger] rs@[k]).0 <= rs@[k].1,
            forall|k: int|
                0 <= k < i ==> !(s <= (#[trigger] positions(rs@)[k]).0 && positions(rs@)[k].1 <= e
                    && positions(rs@)[k].1 - positions(rs@)[k].0 >= RETRY_THRESHOLD),
        decreases rs.len() - i,
    {
        let (a, b) = rs[i];
        assert(positions(rs@)[i as int] == (a as int, b as int));
        if s <= a && b <= e && b - a >= RETRY_THRESHOLD {
            return true;
        }
        i += 1;
    }
    false
}

fn args_variations(calls: &Vec<ToolCall>, s: usize, e: usize) -> (r: Vec<String>)
    requires
        s <= e <= calls.len(),
    ensures
        texts(r@) == variations(calls_view(calls@), s as int, e as int),
{
    let ghost all = calls_view(calls@);
    let mut seen: Vec<String> = Vec::new();
    let mut j: usize = s;
    assert(texts(seen@) =~= Seq::empty());
    while j < e
        invariant
            s <= j <= e <= calls.len(),
            all == calls_view(calls@),
            texts(seen@) == variations(all, s as int, j as int),
        decreases e - j,
    {
        proof {
            let next = Seq::new((j + 1 - s) as nat, |i: int| all[s + i].args);
            assert(next.drop_last() =~= Seq::new((j - s) as nat, |i: int| all[s + i].args));
            assert(next.last() == all[j as int].args);
            assert(all[j as int] == calls@[j as int]@);
        }
        if !holds_text(&seen, calls[j].args.as_str()) {
            let a: String = calls[j].args.clone();
            proof {
                lemma_texts_push(seen@, a);
            }
            seen.push(a);
        }
        j += 1;
    }
    seen
}

fn detect_parameter_drift(calls: &Vec<ToolCall>) -> (r: Vec<SignalInstance>)
    ensures
        signals_view(r@) == drift_facts(calls_view(calls@)),
{
    let rs: Vec<(usize, usize)> = split_by_tool(calls);
    let retries: Vec<(usize, usize)> = find_retries(calls);
    let ghost all = calls_view(calls@);
    let ghost pos = runs(all, false);
    let ghost rpos = retries_from(all, 0);
    proof {
        lemma_runs_shape(all, false);
        lemma_retries_shape(all, 0);
        assert forall|k: int| 0 <= k < retries@.len() implies (#[trigger] retries@[k]).0
            <= retries@[k].1 by {
            assert(positions(retries@)[k] == rpos[k]);
        }
    }
    let mut r: Vec<SignalInstance> = Vec::new();
    let mut i: usize = 0;
    assert(signals_view(r@) =~= Seq::empty());
    while i < rs.len()
        invariant
            i <= rs.len(),
            positions(rs@) == pos,
            positions(retries@) == rpos,
            all == calls_view(calls@),
            forall|k: int| 0 <= k < retries@.len() ==> (#[trigger] retries@[k]).0 <= retries@[k].1,
            forall|k: int| 0 <= k < pos.len() ==> 0 <= (#[trigger] pos[k]).0 < pos[k].1 <= all.len(),
            signals_view(r@) == drifts_of(all, pos.take(i as int), rpos),
        decreases rs.len() - i,
    {
        let (s, e) = rs[i];
        proof {
            let next = pos.take(i + 1);
            assert(next.drop_last() =~= pos.take(i as int));
            assert(positions(rs@)[i as int] == (s as int, e as int));
            assert(next.last() == pos[i as int]);
            assert(all[s as int] == calls@[s as int]@);
            assert(all[e - 1] == calls@[e - 1]@);
        }
        let seen: Vec<String> = args_variations(calls, s, e);
        assert(texts(seen@).len() == seen@.len());
        if e - s >= PARAMETER_DRIFT_THRESHOLD && seen.len() >= 2 && !has_retry_within(
            &retries,
            s,
            e,
        ) {
            let sig: SignalInstance = drift_signal(
                calls[s].index,
                calls[e - 1].index,
                calls[s].name.as_str(),
                seen.len(),
                e - s,
            );
            proof {
                lemma_signals_push(r@, sig);
            }
            r.push(sig);
        }
        i += 1;
    }
    assert(pos.take(rs@.len() as int) =~= pos);
    r
}

// ---------------------------------------------------------------------------
// Oscillation
// ---------------------------------------------------------------------------

/// A cycle of tool names, repeated.
#[derive(Debug)]
pub(crate) struct Oscillation {
    pub(crate) start: usize,
    pub(crate) end: usize,
    pub(crate) names: Vec<String>,
    pub(crate) cycles: usize,
}

/// What an oscillation says: the messages of its first and last call, the
/// names of one cycle, and the number of cycles.
pub struct OscillationFacts {
    pub start: nat,
    pub end: nat,
    pub names: Seq<Seq<char>>,
    pub cycles: nat,
}

impl View for Oscillation {
    type V = OscillationFacts;

    open(crate) spec fn view(&self) -> OscillationFacts {
        OscillationFacts {
            start: self.start as nat,
            end: self.end as nat,
            names: texts(self.names@),
            cycles: self.cycles as nat,
        }
    }
}

pub(crate) open(crate) spec fn oscillations_view(v: Seq<Oscillation>) -> Seq<OscillationFacts> {
    Seq::new(v.len(), |i: int| v[i]@)
}

/// The names of the `p` calls from `i` on.
pub open spec fn names_at(calls: Seq<CallFacts>, i: int, p: int) -> Seq<Seq<char>> {
    Seq::new(p as nat, |k: int| calls[i + k].name)
}

/// How often the names of the `p` calls from `i` on are repeated in full
/// from `pos` on, without a gap.
pub open spec fn repeats(calls: Seq<CallFacts>, i: int, p: int, pos: int) -> nat
    decreases calls.len() - pos,
{
    if p > 0 && pos + p <= calls.len() && names_at(calls, pos, p) == names_at(calls, i, p) {
        1 + repeats(calls, i, p, pos + p)
    } else {
        0
    }
}

/// The number of consecutive cycles of length `p` from `i` on.
pub open spec fn cycles_at(calls: Seq<CallFacts>, i: int, p: int) -> nat {
    1 + repeats(calls, i, p, i + p)
}

/// Whether the calls from `i` on oscillate with period `p`.
pub open spec fn oscillates(calls: Seq<CallFacts>, i: int, p: int) -> bool {
    &&& i + p <= calls.len()
    &&& distinct(names_at(calls, i, p)).len() >= 2
    &&& cycles_at(calls, i, p) >= OSCILLATION_CYCLES_THRESHOLD
}

/// The shortest period from `p` on with which the calls from `i` on oscillate.
pub open spec fn period_at(calls: Seq<CallFacts>, i: int, p: int) -> Option<int>
    decreases MAX_OSC_PATTERN_LEN + 1 - p,
{
    if p > MAX_OSC_PATTERN_LEN {
        None
    } else if oscillates(calls, i, p) {
        Some(p)
    } else {
        period_at(calls, i, p + 1)
    }
}

/// The oscillation with period `p` from `i` on.
pub open spec fn oscillation_at(calls: Seq<CallFacts>, i: int, p: int) -> OscillationFacts {
    let cycles = cycles_at(calls, i, p);
    OscillationFacts {
        start: calls[i].index,
        end: calls[i + cycles * p - 1].index,
        names: names_at(calls, i, p),
        cycles,
    }
}

proof fn lemma_repeats_fit(calls: Seq<CallFacts>, i: int, p: int, pos: int)
    requires
        p > 0,
        pos <= calls.len(),
    ensures
        pos + repeats(calls, i, p, pos) * p <= calls.len(),
    decreases calls.len() - pos,
{
    if pos + p <= calls.len() && names_at(calls, pos, p) == names_at(calls, i, p) {
        lemma_repeats_fit(calls, i, p, pos + p);
        let r = repeats(calls, i, p, pos + p) as int;
        assert((1 + r) * p == p + r * p) by (nonlinear_arith);
        assert(repeats(calls, i, p, pos) == 1 + r);
    } else {
        assert(repeats(calls, i, p, pos) == 0);
        assert(0 * p == 0) by (nonlinear_arith);
    }
}

pub proof fn lemma_period_at(calls: Seq<CallFacts>, i: int, p: int)
    ensures
        match period_at(calls, i, p) {
            Some(q) => p <= q <= MAX_OSC_PATTERN_LEN && oscillates(calls, i, q),
            None => true,
        },
    decreases MAX_OSC_PATTERN_LEN + 1 - p,
{
    if p <= MAX_OSC_PATTERN_LEN && !oscillates(calls, i, p) {
        lemma_period_at(calls, i, p + 1);
    }
}

pub proof fn lemma_cycles_fit(calls: Seq<CallFacts>, i: int, p: int)
    requires
        p > 0,
        oscillates(calls, i, p),
    ensures
        i + cycles_at(calls, i, p) * p <= calls.len(),
        (cycles_at(calls, i, p) - 1) * p > 0,
        i + (cycles_at(calls, i, p) - 1) * p == i + cycles_at(calls, i, p) * p - p,
{
    lemma_repeats_fit(calls, i, p, i + p);
    let r = repeats(calls, i, p, i + p) as int;
    assert((1 + r) * p == p + r * p) by (nonlinear_arith);
    assert(r * p > 0) by (nonlinear_arith)
        requires
            r > 0,
            p > 0,
    ;
}

/// The oscillations found scanning from `i` on: where calls oscillate, the
/// scan goes on with the last cycle of the pattern, else with the next call.
pub open spec fn oscillations_from(calls: Seq<CallFacts>, i: int) -> Seq<OscillationFacts>
    decreases calls.len() - i,
{
    if i + 2 * OSCILLATION_CYCLES_THRESHOLD > calls.len() {
        Seq::empty()
    } else {
        match period_at(calls, i, 2) {
            Some(p) => {
                proof {
                    lemma_period_at(calls, i, 2);
                    lemma_cycles_fit(calls, i, p);
                }
                seq![oscillation_at(calls, i, p)] + oscillations_from(
                    calls,
                    i + (cycles_at(calls, i, p) - 1) * p,
                )
            },
            None => oscillations_from(calls, i + 1),
        }
    }
}

/// Earlier start first; of one start, the longer first.
pub open spec fn comes_before(a: OscillationFacts, b: OscillationFacts) -> bool {
    a.start < b.start || (a.start == b.start && a.end > b.end)
}

/// `x` put into the sorted sequence `s`, behind what it does not come before.
pub open spec fn insert_sorted(s: Seq<OscillationFacts>, x: OscillationFacts) -> Seq<
    OscillationFacts,
>
    decreases s.len(),
{
    if s.len() == 0 {
        seq![x]
    } else if comes_before(x, s.last()) {
        insert_sorted(s.drop_last(), x).push(s.last())
    } else {
        s.push(x)
    }
}

/// The stable sort of `s` by `comes_before`.
pub open spec fn sorted(s: Seq<OscillationFacts>) -> Seq<OscillationFacts>
    decreases s.len(),
{
    if s.len() == 0 {
        s
    } else {
        insert_sorted(sorted(s.drop_last()), s.last())
    }
}

/// The elements of `s`, from the left, that start after the last one kept ended.
pub open spec fn without_overlap(s: Seq<OscillationFacts>) -> Seq<OscillationFacts>
    decreases s.len(),
{
    if s.len() == 0 {
        s
    } else {
        let kept = without_overlap(s.drop_last());
        if kept.len() == 0 || s.last().start > kept.last().end {
            kept.push(s.last())
        } else {
            kept
        }
    }
}

/// Overlapping oscillations reduced to the first and longest.
pub open spec fn deduplicated(s: Seq<OscillationFacts>) -> Seq<OscillationFacts> {
    without_overlap(sorted(s))
}

/// The signal of an oscillation.
pub open spec fn oscillation_fact(o: OscillationFacts) -> SignalFacts {
    SignalFacts {
        signal_type: SignalType::ExecutionLoopsOscillation,
        message_index: o.start,
        snippet: "Oscillation pattern ["@ + joined(o.names, " \u{2192} "@) + "] repeated "@ + numeral(
            o.cycles,
        ) + " times"@,
        confidence: Ratio { num: 90, den: 100 },
        metadata: MetadataFacts::Oscillation {
            tools: o.names,
            start_index: o.start,
            end_index: o.end,
            cycle_count: o.cycles,
        },
    }
}

/// The signals of oscillations.
pub open spec fn oscillation_signals(s: Seq<OscillationFacts>) -> Seq<SignalFacts> {
    s.map_values(|o: OscillationFacts| oscillation_fact(o))
}

fn oscillation_signal(o: &Oscillation) -> (r: SignalInstance)
    ensures
        r@ == oscillation_fact(o@),
{
    let mut snippet: String = "Oscillation pattern [".to_owned();
    snippet.append(join(&o.names, " \u{2192} ").as_str());
    snippet.append("] repeated ");
    snippet.append(to_decimal(o.cycles as u128).as_str());
    snippet.append(" times");
    SignalInstance::new(
        SignalType::ExecutionLoopsOscillation,
        o.start,
        snippet.as_str(),
    ).with_confidence(Ratio::new(90, 100)).with_metadata(
        Metadata::Oscillation {
            tools: clone_texts(&o.names),
            start_index: o.start,
            end_index: o.end,
            cycle_count: o.cycles,
        },
    )
}

pub(crate) fn render_oscillations(v: &Vec<Oscillation>) -> (r: Vec<SignalInstance>)
    ensures
        signals_view(r@) == oscillation_signals(oscillations_view(v@)),
{
    let mut r: Vec<SignalInstance> = Vec::new();
    let mut i: usize = 0;
    while i < v.len()
        invariant
            i <= v.len(),
            r@.len() == i,
            forall|j: int| 0 <= j < i ==> (#[trigger] r@[j])@ == oscillation_fact(v@[j]@),
        decreases v.len() - i,
    {
        r.push(oscillation_signal(&v[i]));
        i += 1;
    }
    assert(signals_view(r@) =~= oscillation_signals(oscillations_view(v@)));
    r
}

fn calls_names(calls: &Vec<ToolCall>, i: usize, p: usize) -> (r: Vec<String>)
    requires
        i + p <= calls.len(),
    ensures
        texts(r@) == names_at(calls_view(calls@), i as int, p as int),
{
    let mut r: Vec<String> = Vec::new();
    let mut k: usize = 0;
    while k < p
        invariant
            k <= p,
            i + p <= calls.len(),
            r@.len() == k,
            forall|j: int| 0 <= j < k ==> (#[trigger] r@[j])@ == calls@[i + j].name@,
        decreases p - k,
    {
        r.push(calls[i + k].name.clone());
        k += 1;
    }
    assert(texts(r@) =~= names_at(calls_view(calls@), i as int, p as int));
    r
}

pub(crate) fn count_distinct(v: &Vec<String>) -> (n: usize)
    ensures
        n == distinct(texts(v@)).len(),
{
    let mut seen: Vec<String> = Vec::new();
    let mut j: usize = 0;
    assert(texts(seen@) =~= Seq::empty());
    while j < v.len()
        invariant
            j <= v.len(),
            texts(seen@) == distinct(texts(v@).take(j as int)),
        decreases v.len() - j,
    {
        proof {
            let next = texts(v@).take(j + 1);
            assert(next.drop_last() =~= texts(v@).take(j as int));
            assert(next.last() == v@[j as int]@);
        }
        if !holds_text(&seen, v[j].as_str()) {
            let a: String = v[j].clone();
            proof {
                lemma_texts_push(seen@, a);
            }
            seen.push(a);
        }
        j += 1;
    }
    assert(texts(v@).take(v@.len() as int) =~= texts(v@));
    assert(texts(seen@).len() == seen@.len());
    seen.len()
}

fn same_names_at(calls: &Vec<ToolCall>, i: usize, p: usize, pos: usize) -> (b: bool)
    requires
        i + p <= calls.len(),
        pos + p <= calls.len(),
    ensures
        b == (names_at(calls_view(calls@), pos as int, p as int) == names_at(
            calls_view(calls@),
            i as int,
            p as int,
        )),
{
    let ghost all = calls_view(calls@);
    let mut k: usize = 0;
    while k < p
        invariant
            k <= p,
            i + p <= calls.len(),
            pos + p <= calls.len(),
            all == calls_view(calls@),
            forall|j: int|
                0 <= j < k ==> (#[trigger] names_at(all, pos as int, p as int)[j]) == names_at(
                    all,
                    i as int,
                    p as int,
                )[j],
        decreases p - k,
    {
        assert(names_at(all, pos as int, p as int)[k as int] == calls@[pos + k].name@);
        assert(names_at(all, i as int, p as int)[k as int] == calls@[i + k].name@);
        if !same_text(calls[pos + k].name.as_str(), calls[i + k].name.as_str()) {
            return false;
        }
        k += 1;
    }
    assert(names_at(all, pos as int, p as int) =~= names_at(all, i as int, p as int));
    true
}

fn count_cycles(calls: &Vec<ToolCall>, i: usize, p: usize) -> (n: usize)
    requires
        i + p <= calls.len(),
        p > 0,
    ensures
        n == cycles_at(calls_view(calls@), i as int, p as int),
        i + n * p <= calls.len(),
{
    let ghost all = calls_view(calls@);
    let mut cycles: usize = 1;
    let mut pos: usize = i + p;
    assert(1 * p == p) by (nonlinear_arith);
    while p <= calls.len() - pos && same_names_at(calls, i, p, pos)
        invariant
            p > 0,
            i + p <= pos <= calls.len(),
            all == calls_view(calls@),
            pos == i + cycles * p,
            1 <= cycles <= pos,
            cycles_at(all, i as int, p as int) == cycles + repeats(
                all,
                i as int,
                p as int,
                pos as int,
            ),
        decreases calls.len() - pos,
    {
        assert((cycles + 1) * p == cycles * p + p) by (nonlinear_arith);
        cycles += 1;
        pos += p;
    }
    cycles
}

fn find_period(calls: &Vec<ToolCall>, i: usize) -> (r: Option<(usize, usize)>)
    requires
        i <= calls.len(),
    ensures
        match r {
            Some((p, cycles)) => period_at(calls_view(calls@), i as int, 2) == Some(p as int)
                && cycles == cycles_at(calls_view(calls@), i as int, p as int) && 2 <= p && i
                + cycles * p <= calls.len() && cycles >= OSCILLATION_CYCLES_THRESHOLD,
            None => period_at(calls_view(calls@), i as int, 2) is None,
        },
{
    let ghost all = calls_view(calls@);
    let mut p: usize = 2;
    while p <= MAX_OSC_PATTERN_LEN
        invariant
            2 <= p <= MAX_OSC_PATTERN_LEN + 1,
            i <= calls.len(),
            all == calls_view(calls@),
            period_at(all, i as int, 2) == period_at(all, i as int, p as int),
        decreases MAX_OSC_PATTERN_LEN + 1 - p,
    {
        if p <= calls.len() - i {
            let names: Vec<String> = calls_names(calls, i, p);
            if count_distinct(&names) >= 2 {
                let cycles: usize = count_cycles(calls, i, p);
                if cycles >= OSCILLATION_CYCLES_THRESHOLD {
                    return Some((p, cycles));
                }
            }
        }
        assert(!oscillates(all, i as int, p as int));
        p += 1;
    }
    None
}

fn insert_oscillation(v: &mut Vec<Oscillation>, x: Oscillation)
    ensures
        oscillations_view(final(v)@) == insert_sorted(oscillations_view(old(v)@), x@),
{
    let ghost all = oscillations_view(v@);
    let mut k: usize = v.len();
    assert(all.take(k as int) =~= all);
    assert(all.skip(k as int) =~= Seq::empty());
    assert(insert_sorted(all, x@) =~= insert_sorted(all.take(k as int), x@) + all.skip(k as int));
    while k > 0 && (x.start < v[k - 1].start || (x.start == v[k - 1].start && x.end > v[k
        - 1].end))
        invariant
            k <= v.len(),
            all == oscillations_view(v@),
            insert_sorted(all, x@) == insert_sorted(all.take(k as int), x@) + all.skip(k as int),
        decreases k,
    {
        proof {
            let s = all.take(k as int);
            assert(s.last() == v@[k - 1]@);
            assert(s.drop_last() =~= all.take(k - 1));
            assert(insert_sorted(s.drop_last(), x@).push(s.last()) + all.skip(k as int)
                =~= insert_sorted(s.drop_last(), x@) + all.skip(k - 1));
        }
        k -= 1;
    }
    proof {
        let s = all.take(k as int);
        if k > 0 {
            assert(s.last() == v@[k - 1]@);
        } else {
            assert(s =~= Seq::empty());
        }
        assert(insert_sorted(s, x@) =~= s.push(x@));
        assert(oscillations_view(v@.insert(k as int, x)) =~= s.push(x@) + all.skip(k as int));
    }
    v.insert(k, x);
}

pub(crate) fn deduplicate_patterns(patterns: Vec<Oscillation>) -> (r: Vec<Oscillation>)
    ensures
        oscillations_view(r@) == deduplicated(oscillations_view(patterns@)),
{
    let ghost all = oscillations_view(patterns@);
    let mut by_start: Vec<Oscillation> = Vec::new();
    let mut i: usize = 0;
    assert(oscillations_view(by_start@) =~= Seq::empty());
    while i < patterns.len()
        invariant
            i <= patterns.len(),
            all == oscillations_view(patterns@),
            oscillations_view(by_start@) == sorted(all.take(i as int)),
        decreases patterns.len() - i,
    {
        proof {
            let next = all.take(i + 1);
            assert(next.drop_last() =~= all.take(i as int));
            assert(next.last() == patterns@[i as int]@);
        }
        let x: Oscillation = copy_oscillation(&patterns[i]);
        insert_oscillation(&mut by_start, x);
        i += 1;
    }
    assert(all.take(patterns@.len() as int) =~= all);
    let ghost order = oscillations_view(by_start@);
    let mut kept: Vec<Oscillation> = Vec::new();
    let mut j: usize = 0;
    assert(oscillations_view(kept@) =~= Seq::empty());
    while j < by_start.len()
        invariant
            j <= by_start.len(),
            order == oscillations_view(by_start@),
            oscillations_view(kept@) == without_overlap(order.take(j as int)),
        decreases by_start.len() - j,
    {
        proof {
            let next = order.take(j + 1);
            assert(next.drop_last() =~= order.take(j as int));
            assert(next.last() == by_start@[j as int]@);
            assert(oscillations_view(kept@).len() == kept@.len());
            if kept@.len() > 0 {
                assert(oscillations_view(kept@).last() == kept@.last()@);
            }
        }
        let free: bool = kept.len() == 0 || by_start[j].start > kept[kept.len() - 1].end;
        if free {
            let x: Oscillation = copy_oscillation(&by_start[j]);
            assert(oscillations_view(kept@.push(x)) =~= oscillations_view(kept@).push(x@));
            kept.push(x);
        }
        j += 1;
    }
    assert(order.take(by_start@.len() as int) =~= order);
    kept
}

pub(crate) fn copy_oscillation(o: &Oscillation) -> (r: Oscillation)
    ensures
        r@ == o@,
{
    Oscillation { start: o.start, end: o.end, names: clone_texts(&o.names), cycles: o.cycles }
}

fn detect_oscillation(calls: &Vec<ToolCall>) -> (r: Vec<Oscillation>)
    ensures
        oscillations_view(r@) == deduplicated(oscillations_from(calls_view(calls@), 0)),
{
    let ghost all = calls_view(calls@);
    let mut patterns: Vec<Oscillation> = Vec::new();
    let mut i: usize = 0;
    assert(oscillations_view(patterns@) + oscillations_from(all, 0) =~= oscillations_from(all, 0));
    while i < calls.len() && 2 * OSCILLATION_CYCLES_THRESHOLD <= calls.len() - i
        invariant
            i <= calls.len(),
            all == calls_view(calls@),
            oscillations_view(patterns@) + oscillations_from(all, i as int) == oscillations_from(
                all,
                0,
            ),
        decreases calls.len() - i,
    {
        match find_period(calls, i) {
            Some((p, cycles)) => {
                proof {
                    lemma_period_at(all, i as int, 2);
                    lemma_cycles_fit(all, i as int, p as int);
                    assert((cycles - 1) * p == cycles * p - p) by (nonlinear_arith);
                    assert(cycles * p >= 6) by (nonlinear_arith)
                        requires
                            cycles >= 3,
                            p >= 2,
                    ;
                }
                let span: usize = cycles * p;
                let found: Oscillation = Oscillation {
                    start: calls[i].index,
                    end: calls[i + span - 1].index,
                    names: calls_names(calls, i, p),
                    cycles,
                };
                proof {
                    assert(all[i as int] == calls@[i as int]@);
                    assert(all[i + span - 1] == calls@[i + span - 1]@);
                    assert(found@ == oscillation_at(all, i as int, p as int));
                    let rest = oscillations_from(all, i + span - p);
                    assert(oscillations_from(all, i as int) == seq![found@] + rest);
                    assert(oscillations_view(patterns@.push(found)) =~= oscillations_view(
                        patterns@,
                    ).push(found@));
                    assert(oscillations_view(patterns@).push(found@) + rest =~= oscillations_view(
                        patterns@,
                    ) + (seq![found@] + rest));
                }
                patterns.push(found);
                i = i + span - p;
            },
            None => {
                i += 1;
            },
        }
    }
    assert(oscillations_view(patterns@) + Seq::<OscillationFacts>::empty() =~= oscillations_view(
        patterns@,
    ));
    deduplicate_patterns(patterns)
}

/// The loop signals of a sequence of calls: retries, drifts, oscillations.
pub open spec fn loop_facts(calls: Seq<CallFacts>) -> Seq<SignalFacts> {
    retry_facts(calls) + drift_facts(calls) + oscillation_signals(
        deduplicated(oscillations_from(calls, 0)),
    )
}

pub(crate) proof fn lemma_few_calls(calls: Seq<CallFacts>)
    requires
        calls.len() < RETRY_THRESHOLD,
    ensures
        loop_facts(calls) == Seq::<SignalFacts>::empty(),
{
    lemma_retries_shape(calls, 0);
    lemma_runs_shape(calls, false);
    assert(retries_from(calls, 0) =~= Seq::empty()) by {
        if retries_from(calls, 0).len() > 0 {
            assert(retries_from(calls, 0)[0].1 <= calls.len());
        }
    }
    lemma_no_drift(calls, runs(calls, false), retries_from(calls, 0));
    assert(oscillations_from(calls, 0) =~= Seq::empty());
    assert(loop_facts(calls) =~= Seq::empty());
}

proof fn lemma_no_drift(calls: Seq<CallFacts>, rs: Seq<(int, int)>, retries: Seq<(int, int)>)
    requires
        forall|k: int|
            0 <= k < rs.len() ==> (#[trigger] rs[k]).1 - rs[k].0 < PARAMETER_DRIFT_THRESHOLD,
    ensures
        drifts_of(calls, rs, retries) == Seq::<SignalFacts>::empty(),
    decreases rs.len(),
{
    if rs.len() > 0 {
        lemma_no_drift(calls, rs.drop_last(), retries);
    }
}

/// The loops of a whole conversation.
pub fn analyze_loops(messages: &[ShareGptMessage<'_>]) -> (r: SignalGroup)
    ensures
        r@ == group_of("loops"@, loop_facts(calls_in(rows(messages@), 0))),
{
    let n: usize = messages.len();
    assert(messages@.len() == n);
    analyze_loops_from(messages, 0)
}

/// The loops of the end of a conversation, from row number `base` on.
pub fn analyze_loops_from(messages: &[ShareGptMessage<'_>], base: usize) -> (r: SignalGroup)
    requires
        base + messages@.len() <= usize::MAX,
    ensures
        r@ == group_of("loops"@, loop_facts(calls_in(rows(messages@), base as nat))),
{
    let calls: Vec<ToolCall> = extract_tool_calls(messages, base);
    if calls.len() < RETRY_THRESHOLD {
        proof {
            lemma_few_calls(calls_view(calls@));
        }
        return SignalGroup::new("loops");
    }
    let mut signals: Vec<SignalInstance> = detect_retry(&calls);
    let drifts: Vec<SignalInstance> = detect_parameter_drift(&calls);
    extend_signals(&mut signals, &drifts);
    let oscillations: Vec<SignalInstance> = render_oscillations(&detect_oscillation(&calls));
    extend_signals(&mut signals, &oscillations);
    make_group("loops", signals)
}

} // verus!
