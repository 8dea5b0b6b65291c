//! From a routing decision to the model and the prompt a request is sent with.

use crate::chat::{message_body, Conversion, Message, MessageContent, Role};
use crate::metrics::labels::{ROUTE_AGENT, ROUTE_LLM, ROUTE_ROUTING};
use crate::router::llm::first_or_empty;
use crate::signals::schemas::opt_text;
use crate::skills::SkillRef;
use crate::text::{begins_with, concat2, starts_with, texts};
use vstd::prelude::*;

verus! {

/// The `route` label of a path.
pub open spec fn route_label(path: Seq<char>) -> Seq<char> {
    if begins_with(path, "/agents"@) {
        ROUTE_AGENT@
    } else if begins_with(path, "/routing"@) {
        ROUTE_ROUTING@
    } else {
        ROUTE_LLM@
    }
}

/// Classify a request path into the fixed `route` label used on routing metrics.
pub fn route_label_for_path(request_path: &str) -> (r: &'static str)
    ensures
        r@ == route_label(request_path@),
{
    if starts_with(request_path, "/agents") {
        ROUTE_AGENT
    } else if starts_with(request_path, "/routing") {
        ROUTE_ROUTING
    } else {
        ROUTE_LLM
    }
}

/// What the orchestrator decided for a request.
#[derive(Debug)]
pub struct RouteSelection {
    pub route_name: Option<String>,
    /// The models in order of preference.
    pub models: Vec<String>,
    pub activated_skills: Vec<SkillRef>,
}

#[derive(Debug)]
pub struct RoutingResult {
    /// Primary model to use (first in the ranked list).
    pub model_name: String,
    /// Full ranked list — use subsequent entries as fallbacks on 429/5xx.
    pub models: Vec<String>,
    pub route_name: Option<String>,
    /// Skills activated by the orchestrator for this request. Their `body`
    /// goes into the upstream system prompt.
    pub activated_skills: Vec<SkillRef>,
}

#[derive(Debug)]
pub struct RoutingError {
    pub message: String,
    pub status_code: u16,
}

pub const INTERNAL_SERVER_ERROR: u16 = 500;

impl RoutingError {
    /// An error of the gateway's own.
    pub fn internal_error(message: String) -> (r: Self)
        ensures
            r.message == message,
            r.status_code == INTERNAL_SERVER_ERROR,
    {
        RoutingError { message, status_code: INTERNAL_SERVER_ERROR }
    }
}

/// Whether a result tells the caller to stay on the model the request names.
pub open spec fn keeps_requested_model(r: RoutingResult) -> bool {
    r.model_name@ == "none"@ && texts(r.models@) == seq!["none"@] && r.route_name is None
}

fn keep_requested_model(activated_skills: Vec<SkillRef>) -> (r: RoutingResult)
    ensures
        keeps_requested_model(r),
        r.activated_skills == activated_skills,
{
    let mut models: Vec<String> = Vec::new();
    models.push("none".to_owned());
    assert(texts(models@) =~= seq!["none"@]);
    RoutingResult {
        model_name: "none".to_owned(),
        models,
        route_name: None,
        activated_skills,
    }
}

/// The messages to route a request by. A request that is no chat request is
/// refused.
pub fn routed_messages(converted: Conversion) -> (r: Result<Vec<Message>, RoutingError>)
    ensures
        match r {
            Ok(messages) => converted == Conversion::Chat(messages),
            Err(e) => {
                &&& converted.fault() == Some(e.message@)
                &&& e.status_code == INTERNAL_SERVER_ERROR
            },
        },
{
    match converted.messages() {
        Ok(messages) => Ok(messages),
        Err(e) => Err(RoutingError::internal_error(e)),
    }
}

/// Whether `r` follows from what the orchestrator decided.
pub open spec fn settles_model(
    decided: Result<Option<RouteSelection>, String>,
    r: Result<RoutingResult, RoutingError>,
) -> bool {
    match decided {
        Err(err) => {
            &&& r is Err
            &&& r->Err_0.message@ == "Failed to determine route: "@ + err@
            &&& r->Err_0.status_code == INTERNAL_SERVER_ERROR
        },
        Ok(None) => r is Ok && keeps_requested_model(r->Ok_0) && r->Ok_0.activated_skills@.len()
            == 0,
        Ok(Some(d)) => {
            &&& r is Ok
            &&& r->Ok_0.activated_skills == d.activated_skills
            &&& if d.route_name is None && d.models@.len() == 0 {
                keeps_requested_model(r->Ok_0)
            } else {
                &&& r->Ok_0.models == d.models
                &&& r->Ok_0.route_name == d.route_name
                &&& r->Ok_0.model_name@ == (if d.models@.len() > 0 {
                    d.models@[0]@
                } else {
                    Seq::empty()
                })
            }
        },
    }
}

/// Determines the model of a request from what the orchestrator decided. A
/// decision with skills alone keeps the requested model, and the skills; no
/// decision keeps it too.
pub fn router_chat_get_upstream_model(decided: Result<Option<RouteSelection>, String>) -> (r: Result<
    RoutingResult,
    RoutingError,
>)
    ensures
        settles_model(decided, r),
{
    match decided {
        Err(err) => Err(
            RoutingError::internal_error(concat2("Failed to determine route: ", err.as_str())),
        ),
        Ok(None) => Ok(keep_requested_model(Vec::new())),
        Ok(Some(decision)) => {
            if decision.route_name.is_none() && decision.models.len() == 0 {
                return Ok(keep_requested_model(decision.activated_skills));
            }
            let model_name: String = first_or_empty(&decision.models);
            Ok(
                RoutingResult {
                    model_name,
                    models: decision.models,
                    route_name: decision.route_name,
                    activated_skills: decision.activated_skills,
                },
            )
        },
    }
}

/// The position of the first system message, from `i` on.
pub open spec fn system_from(messages: Seq<Message>, i: int) -> Option<int>
    decreases messages.len() - i,
{
    if i >= messages.len() {
        None
    } else if messages[i].role == Role::System {
        Some(i)
    } else {
        system_from(messages, i + 1)
    }
}

proof fn lemma_system_from(messages: Seq<Message>, i: int)
    requires
        0 <= i,
    ensures
        match system_from(messages, i) {
            Some(k) => i <= k < messages.len() && messages[k].role == Role::System,
            None => true,
        },
    decreases messages.len() - i,
{
    if i < messages.len() && messages[i].role != Role::System {
        lemma_system_from(messages, i + 1);
    }
}

/// Whether a message is another one with its content replaced by a text.
pub open spec fn is_with_text(m: Message, before: Message, text: Seq<char>) -> bool {
    &&& m.role == before.role
    &&& m.name == before.name
    &&& m.tool_calls == before.tool_calls
    &&& m.tool_call_id == before.tool_call_id
    &&& match m.content {
        Some(MessageContent::Text(t)) => t@ == text,
        _ => false,
    }
}

/// The system prompt of a conversation: the text of its first system message.
pub open spec fn system_prompt(messages: Seq<Message>) -> Option<Seq<char>> {
    match system_from(messages, 0) {
        Some(k) => Some(message_body(messages[k])),
        None => None,
    }
}

/// Whether `after` are the messages `before` with this system prompt: in
/// place of the one there is, or in a new first message.
pub open spec fn has_system_prompt(
    before: Seq<Message>,
    prompt: Seq<char>,
    after: Seq<Message>,
) -> bool {
    match system_from(before, 0) {
        Some(k) => {
            &&& after.len() == before.len()
            &&& is_with_text(after[k], before[k], prompt)
            &&& forall|i: int| 0 <= i < before.len() && i != k ==> #[trigger] after[i] == before[i]
        },
        None => {
            &&& after.len() == before.len() + 1
            &&& after[0].role == Role::System
            &&& after[0].name is None
            &&& after[0].tool_calls is None
            &&& after[0].tool_call_id is None
            &&& match after[0].content {
                Some(MessageContent::Text(t)) => t@ == prompt,
                _ => false,
            }
            &&& after.skip(1) == before
        },
    }
}

/// Whether `after` are the messages `before` with the system prompt that was
/// made for skills: where there are skills, and a prompt.
pub open spec fn has_skills_injected(
    before: Seq<Message>,
    skills: Seq<SkillRef>,
    augmented: Option<Seq<char>>,
    after: Seq<Message>,
) -> bool {
    if skills.len() == 0 || augmented is None {
        after == before
    } else {
        has_system_prompt(before, augmented->0, after)
    }
}

fn find_system(messages: &Vec<Message>) -> (r: Option<usize>)
    ensures
        match r {
            Some(k) => system_from(messages@, 0) == Some(k as int) && k < messages@.len(),
            None => system_from(messages@, 0) is None,
        },
{
    let mut i: usize = 0;
    while i < messages.len()
        invariant
            i <= messages@.len(),
            system_from(messages@, 0) == system_from(messages@, i as int),
        decreases messages.len() - i,
    {
        if messages[i].role == Role::System {
            return Some(i);
        }
        i += 1;
    }
    None
}

/// Make a text the system prompt of a conversation.
///
/// * **Replaces the text of the first system message** when one is present at
///   any position in `messages`. Subsequent system messages are left untouched.
/// * **Inserts a new leading system message** when no system message exists.
/// * **Flattens a system message made of parts to a single text.**
pub fn set_system_prompt(messages: &mut Vec<Message>, prompt: String)
    requires
        old(messages)@.len() < usize::MAX,
    ensures
        has_system_prompt(old(messages)@, prompt@, final(messages)@),
{
    let ghost before = messages@;
    match find_system(messages) {
        Some(k) => {
            let m: Message = messages.remove(k);
            messages.insert(
                k,
                Message {
                    role: m.role,
                    content: Some(MessageContent::Text(prompt)),
                    name: m.name,
                    tool_calls: m.tool_calls,
                    tool_call_id: m.tool_call_id,
                },
            );
        },
        None => {
            messages.insert(
                0,
                Message {
                    role: Role::System,
                    content: Some(MessageContent::Text(prompt)),
                    name: None,
                    tool_calls: None,
                    tool_call_id: None,
                },
            );
            assert(messages@.skip(1) =~= before);
        },
    }
}

/// The system prompt of a conversation, which the instructions of skills are
/// added to: the text of its first system message.
pub fn system_prompt_of(messages: &Vec<Message>) -> (r: Option<String>)
    ensures
        opt_text(r) == system_prompt(messages@),
{
    match find_system(messages) {
        Some(k) => Some(messages[k].extract_text()),
        None => None,
    }
}

/// Put the bodies of `activated_skills` into the system prompt of the
/// upstream request so the chosen model has access to each skill's instructions.
/// `augmented` is the system prompt of the request with these instructions,
/// where there is any text to it.
///
/// * **No-op** when `activated_skills` is empty.
/// * **Augments the first system message in place** when one is present at
///   any position in `messages`. Subsequent system messages are left untouched.
/// * **Inserts a new leading system message** when no system message exists.
/// * **Flattens a system message made of parts to a single text**: non-text
///   parts are dropped.
pub fn inject_activated_skills_into_request(
    messages: &mut Vec<Message>,
    activated_skills: &[SkillRef],
    augmented: Option<String>,
)
    requires
        old(messages)@.len() < usize::MAX,
    ensures
        has_skills_injected(
            old(messages)@,
            activated_skills@,
            opt_text(augmented),
            final(messages)@,
        ),
{
    let n: usize = activated_skills.len();
    assert(activated_skills@.len() == n);
    if n == 0 {
        return ;
    }
    if let Some(prompt) = augmented {
        set_system_prompt(messages, prompt);
    }
}

/// Injecting skills leaves every message but the first system message as it
/// was, and adds at most one.
pub proof fn injection_keeps_the_conversation(
    before: Seq<Message>,
    skills: Seq<SkillRef>,
    augmented: Option<Seq<char>>,
    after: Seq<Message>,
)
    requires
        has_skills_injected(before, skills, augmented, after),
    ensures
        before.len() <= after.len() <= before.len() + 1,
        forall|i: int|
            0 <= i < before.len() && (#[trigger] before[i]).role != Role::System
                ==> after[i + after.len() - before.len()] == before[i],
{
    lemma_system_from(before, 0);
    assert forall|i: int|
        0 <= i < before.len() && (#[trigger] before[i]).role != Role::System implies after[i
        + after.len() - before.len()] == before[i] by {
        if after.len() > before.len() {
            assert(after.skip(1)[i] == before[i]);
        }
    }
}

/// The first of the decided models serves the request, and the others stand
/// by in their order. Where none was decided the requested model is kept. The
/// skills are kept in any case, and a failed decision is the gateway's fault.
pub proof fn first_model_serves(
    decided: Result<Option<RouteSelection>, String>,
    r: Result<RoutingResult, RoutingError>,
)
    requires
        settles_model(decided, r),
    ensures
        decided is Err ==> r is Err && r->Err_0.status_code == 500,
        decided is Ok ==> r is Ok,
        decided is Ok && decided->Ok_0 is Some ==> {
            let d = decided->Ok_0->0;
            &&& r->Ok_0.activated_skills == d.activated_skills
            &&& d.models@.len() > 0 ==> r->Ok_0.model_name@ == d.models@[0]@ && r->Ok_0.models
                == d.models && r->Ok_0.route_name == d.route_name
            &&& d.models@.len() == 0 && d.route_name is None ==> r->Ok_0.model_name@ == "none"@
                && r->Ok_0.route_name is None && r->Ok_0.models@.len() == 1
            &&& d.route_name is Some ==> r->Ok_0.route_name == d.route_name
        },
        decided is Ok && decided->Ok_0 is None ==> r->Ok_0.model_name@ == "none"@
            && r->Ok_0.route_name is None && r->Ok_0.activated_skills@.len() == 0,
{
    if r is Ok {
        assert(texts(r->Ok_0.models@).len() == r->Ok_0.models@.len());
    }
}

proof fn lemma_first_system(messages: Seq<Message>, i: int, k: int)
    requires
        0 <= i <= k < messages.len(),
        messages[k].role == Role::System,
        forall|j: int| i <= j < k ==> (#[trigger] messages[j]).role != Role::System,
    ensures
        system_from(messages, i) == Some(k),
    decreases k - i,
{
    if i < k {
        lemma_first_system(messages, i + 1, k);
    }
}

proof fn lemma_none_before(messages: Seq<Message>, i: int, k: int, j: int)
    requires
        0 <= i <= j < k,
        system_from(messages, i) == Some(k),
        k < messages.len(),
    ensures
        messages[j].role != Role::System,
    decreases j - i,
{
    if i < j {
        lemma_none_before(messages, i + 1, k, j);
    }
}

/// A system prompt that was set is the one that is read.
pub proof fn prompt_that_was_set_is_read(
    before: Seq<Message>,
    prompt: Seq<char>,
    after: Seq<Message>,
)
    requires
        has_system_prompt(before, prompt, after),
    ensures
        system_prompt(after) == Some(prompt),
{
    lemma_system_from(before, 0);
    match system_from(before, 0) {
        Some(k) => {
            assert forall|j: int| 0 <= j < k implies (#[trigger] after[j]).role != Role::System by {
                lemma_none_before(before, 0, k, j);
                assert(after[j] == before[j]);
            }
            lemma_first_system(after, 0, k);
        },
        None => {
            lemma_first_system(after, 0, 0);
        },
    }
}

/// Without skills, and without a prompt for them, a request stays as it is;
/// with both it has the prompt.
pub proof fn skills_bring_their_prompt(
    before: Seq<Message>,
    skills: Seq<SkillRef>,
    augmented: Option<Seq<char>>,
    after: Seq<Message>,
)
    requires
        has_skills_injected(before, skills, augmented, after),
    ensures
        skills.len() == 0 ==> after == before,
        augmented is None ==> after == before,
        skills.len() > 0 && augmented is Some ==> system_prompt(after) == augmented,
{
    if skills.len() > 0 && augmented is Some {
        prompt_that_was_set_is_read(before, augmented->0, after);
    }
}

/// Requests are counted by what they are for: agents, routing, or models.
pub proof fn routes_are_counted_by_path(path: Seq<char>)
    ensures
        begins_with(path, "/agents"@) ==> route_label(path) == "agent"@,
        begins_with(path, "/routing"@) ==> route_label(path) == "routing"@,
        !begins_with(path, "/agents"@) && !begins_with(path, "/routing"@) ==> route_label(path)
            == "llm"@,
{
    reveal_strlit("/agents");
    reveal_strlit("/routing");
    if begins_with(path, "/agents"@) && begins_with(path, "/routing"@) {
        assert(path.subrange(0, 7)[1] == path[1]);
        assert(path.subrange(0, 8)[1] == path[1]);
        assert("/agents"@[1] == 'a');
        assert("/routing"@[1] == 'r');
    }
}

} // verus!
