//! A chat that several agents answer in turn.

use crate::assoc::{find_named, first_entry_counts, named};
use crate::chat::{Message, MessageContent, Role};
use crate::encoding::{format_uuid, is_random_uuid, random_uuid, uuid_text};
use crate::text::{concat2, concat3, numeral, same_text, strip, texts, to_decimal, without};
use vstd::prelude::*;
use vstd::string::StringExecFns;

verus! {

/// Main errors for agent chat completions.
#[derive(Debug)]
pub enum AgentFilterChainError {
    Selection(String),
    Pipeline(PipelineError),
    Response(String),
    RequestParsing(String),
    Http(String),
}

/// Why an agent of the pipeline gave no answer.
#[derive(Debug)]
pub enum PipelineError {
    /// The agent refused the request as the client's fault.
    ClientError { agent: String, status: u16, body: String },
    /// Anything else.
    Other(String),
}

impl PipelineError {
    /// The error in words.
    pub open spec fn text(&self) -> Seq<char> {
        match *self {
            PipelineError::ClientError { agent, status, body } => "Client error from agent '"@
                + agent@ + "' (HTTP "@ + numeral(status as nat) + "): "@ + body@,
            PipelineError::Other(m) => m@,
        }
    }

    /// The error in words.
    pub fn message(&self) -> (r: String)
        ensures
            r@ == self.text(),
    {
        match self {
            PipelineError::ClientError { agent, status, body } => {
                let mut r: String = concat3("Client error from agent '", agent.as_str(), "' (HTTP ");
                r.append(to_decimal(*status as u128).as_str());
                r.append("): ");
                r.append(body.as_str());
                r
            },
            PipelineError::Other(m) => m.clone(),
        }
    }
}

impl AgentFilterChainError {
    /// The error in words.
    pub open spec fn text(&self) -> Seq<char> {
        match *self {
            AgentFilterChainError::Selection(m) => "Agent selection error: "@ + m@,
            AgentFilterChainError::Pipeline(e) => "Pipeline processing error: "@ + e.text(),
            AgentFilterChainError::Response(m) => "Response handling error: "@ + m@,
            AgentFilterChainError::RequestParsing(m) => "Request parsing error: "@ + m@,
            AgentFilterChainError::Http(m) => "HTTP error: "@ + m@,
        }
    }

    /// The error in words.
    pub fn message(&self) -> (r: String)
        ensures
            r@ == self.text(),
    {
        match self {
            AgentFilterChainError::Selection(m) => concat2("Agent selection error: ", m.as_str()),
            AgentFilterChainError::Pipeline(e) => concat2(
                "Pipeline processing error: ",
                e.message().as_str(),
            ),
            AgentFilterChainError::Response(m) => concat2("Response handling error: ", m.as_str()),
            AgentFilterChainError::RequestParsing(m) => concat2(
                "Request parsing error: ",
                m.as_str(),
            ),
            AgentFilterChainError::Http(m) => concat2("HTTP error: ", m.as_str()),
        }
    }

    /// The status to cascade to the client: that of an agent's client error,
    /// or 400 where it is no status at all. `None` for all other errors.
    pub open spec fn cascaded(&self) -> Option<u16> {
        match *self {
            AgentFilterChainError::Pipeline(
                PipelineError::ClientError { status, .. },
            ) => if 100 <= status < 1000 {
                Some(status)
            } else {
                Some(400u16)
            },
            _ => None,
        }
    }

    /// The status to cascade to the client.
    pub fn cascaded_status(&self) -> (r: Option<u16>)
        ensures
            r == self.cascaded(),
    {
        match self {
            AgentFilterChainError::Pipeline(PipelineError::ClientError { status, .. }) => if 100
                <= *status && *status < 1000 {
                Some(*status)
            } else {
                Some(400)
            },
            _ => None,
        }
    }
}

/// The reply to a chat that failed.
#[derive(Debug)]
pub enum ErrorReply {
    /// The client error of an agent, with what the agent answered.
    Cascaded { status: u16, agent: String, agent_status: u16, agent_response: String },
    /// An error of the gateway's own.
    Structured { message: String },
}

impl ErrorReply {
    /// Whether the reply is the one to an error: the client error of an agent
    /// is passed on, all else is an error of the gateway's own.
    pub open spec fn answers(&self, err: AgentFilterChainError) -> bool {
        match err {
            AgentFilterChainError::Pipeline(
                PipelineError::ClientError { agent, status, body },
            ) => match *self {
                ErrorReply::Cascaded { status: code, agent: a, agent_status, agent_response } => {
                    &&& Some(code) == err.cascaded()
                    &&& a == agent
                    &&& agent_status == status
                    &&& agent_response == body
                },
                _ => false,
            },
            _ => match *self {
                ErrorReply::Structured { message } => message@ == err.text(),
                _ => false,
            },
        }
    }

    /// The status of the reply.
    pub open spec fn code(&self) -> u16 {
        match *self {
            ErrorReply::Cascaded { status, .. } => status,
            ErrorReply::Structured { .. } => 500,
        }
    }

    /// The status of the reply.
    pub fn status(&self) -> (r: u16)
        ensures
            r == self.code(),
    {
        match self {
            ErrorReply::Cascaded { status, .. } => *status,
            ErrorReply::Structured { .. } => 500,
        }
    }
}

/// The reply to a chat that failed.
pub fn error_reply(err: AgentFilterChainError) -> (r: ErrorReply)
    ensures
        r.answers(err),
{
    match err.cascaded_status() {
        Some(code) => match err {
            AgentFilterChainError::Pipeline(
                PipelineError::ClientError { agent, status, body },
            ) => ErrorReply::Cascaded {
                status: code,
                agent,
                agent_status: status,
                agent_response: body,
            },
            other => ErrorReply::Structured { message: other.message() },
        },
        None => ErrorReply::Structured { message: err.message() },
    }
}

/// The path behind "/agents".
pub open spec fn agent_path(path: Seq<char>) -> Option<Seq<char>> {
    without(path, "/agents"@)
}

/// The path behind "/agents".
pub fn strip_agents(path: &str) -> (r: Option<&str>)
    ensures
        match r {
            Some(p) => agent_path(path@) == Some(p@),
            None => agent_path(path@) is None,
        },
{
    strip(path, "/agents")
}

/// Whether a message is the answer of an agent.
pub open spec fn is_answer(m: Message, agent: Seq<char>, text: Seq<char>) -> bool {
    &&& m.role == Role::Assistant
    &&& match m.content {
        Some(MessageContent::Text(t)) => t@ == text,
        _ => false,
    }
    &&& match m.name {
        Some(n) => n@ == agent,
        None => false,
    }
    &&& m.tool_calls is None
    &&& m.tool_call_id is None
}

/// Whether a history is another one with the answer of an agent right before
/// its last message.
pub open spec fn passed_on(
    before: Seq<Message>,
    after: Seq<Message>,
    agent: Seq<char>,
    text: Seq<char>,
) -> bool {
    let n = before.len();
    &&& after.len() == n + 1
    &&& after.take(n - 1) == before.drop_last()
    &&& is_answer(after[n - 1], agent, text)
    &&& after.last() == before.last()
}

/// Hand the answer of an agent to the next one: it goes into the history
/// right before the last message.
pub fn pass_on(messages: &mut Vec<Message>, agent_name: &str, response_text: String)
    requires
        0 < old(messages)@.len() < usize::MAX,
    ensures
        passed_on(old(messages)@, final(messages)@, agent_name@, response_text@),
{
    let answer: Message = Message {
        role: Role::Assistant,
        content: Some(MessageContent::Text(response_text)),
        name: Some(agent_name.to_owned()),
        tool_calls: None,
        tool_call_id: None,
    };
    let at: usize = messages.len() - 1;
    messages.insert(at, answer);
    assert(messages@.take(at as int) =~= old(messages)@.drop_last());
}

/// Whether `r` are the messages of a request, or why it is refused.
pub open spec fn reads_request(
    path: Seq<char>,
    supported: bool,
    parsed: Result<Vec<Message>, String>,
    r: Result<Vec<Message>, AgentFilterChainError>,
) -> bool {
    if !supported {
        match r {
            Err(AgentFilterChainError::RequestParsing(m)) => m@ == "Unsupported endpoint: "@ + path,
            _ => false,
        }
    } else {
        match parsed {
            Err(e) => match r {
                Err(AgentFilterChainError::RequestParsing(m)) => m@ == "Failed to parse request: "@
                    + e@,
                _ => false,
            },
            Ok(messages) => r == Ok::<_, AgentFilterChainError>(messages),
        }
    }
}

/// The messages of a request, or why it is refused: its endpoint is not
/// supported, or its body could not be read.
pub fn read_request(path: &str, supported: bool, parsed: Result<Vec<Message>, String>) -> (r: Result<
    Vec<Message>,
    AgentFilterChainError,
>)
    ensures
        reads_request(path@, supported, parsed, r),
{
    if !supported {
        return Err(
            AgentFilterChainError::RequestParsing(concat2("Unsupported endpoint: ", path)),
        );
    }
    match parsed {
        Ok(messages) => Ok(messages),
        Err(e) => Err(
            AgentFilterChainError::RequestParsing(
                concat2("Failed to parse request: ", e.as_str()),
            ),
        ),
    }
}

/// The headers without one name.
pub open spec fn without_header(headers: Seq<(String, String)>, name: Seq<char>) -> Seq<
    (String, String),
>
    decreases headers.len(),
{
    if headers.len() == 0 {
        Seq::empty()
    } else if headers.last().0@ == name {
        without_header(headers.drop_last(), name)
    } else {
        without_header(headers.drop_last(), name).push(headers.last())
    }
}

/// Whether a header is among the headers.
pub open spec fn has_header(headers: Seq<(String, String)>, name: Seq<char>) -> bool {
    named(headers, name) is Some
}

/// Whether `r` are the headers to forward.
pub open spec fn forwards(
    headers: Seq<(String, String)>,
    original_path_header: Seq<char>,
    request_id_header: Seq<char>,
    r: Seq<(String, String)>,
) -> bool {
    let kept = without_header(headers, original_path_header);
    if has_header(kept, request_id_header) {
        r == kept
    } else {
        &&& r.len() == kept.len() + 1
        &&& r.drop_last() == kept
        &&& r.last().0@ == request_id_header
        &&& exists|id: u128| is_random_uuid(id) && r.last().1@ == #[trigger] uuid_text(id)
    }
}

/// The headers to forward: those of the request without the one that the
/// proxy in front adds, and with a request id, a new random one where there
/// was none.
pub fn forward_headers(
    headers: Vec<(String, String)>,
    original_path_header: &str,
    request_id_header: &str,
) -> (r: Vec<(String, String)>)
    ensures
        forwards(headers@, original_path_header@, request_id_header@, r@),
{
    let ghost all = headers@;
    let mut rest: Vec<(String, String)> = headers;
    let mut kept: Vec<(String, String)> = Vec::new();
    let ghost mut done: int = 0;
    assert(all.take(0) =~= Seq::empty());
    assert(all.skip(0) =~= all);
    while rest.len() > 0
        invariant
            0 <= done <= all.len(),
            rest@ == all.skip(done),
            kept@ == without_header(all.take(done), original_path_header@),
        decreases rest.len(),
    {
        let h: (String, String) = rest.remove(0);
        proof {
            let cut = all.take(done + 1);
            assert(all.skip(done)[0] == all[done]);
            assert(cut.last() == h);
            assert(cut.drop_last() =~= all.take(done));
            assert(rest@ =~= all.skip(done + 1));
            done = done + 1;
        }
        if !same_text(h.0.as_str(), original_path_header) {
            kept.push(h);
        }
    }
    assert(all.take(done) =~= all);
    if find_named(&kept, request_id_header).is_none() {
        let ghost before = kept@;
        kept.push((request_id_header.to_owned(), format_uuid(random_uuid())));
        assert(kept@.drop_last() =~= before);
    }
    kept
}

/// What is done with the answer of an agent in a chain.
#[derive(Debug, Clone, Copy, PartialEq, Eq, Structural)]
pub enum ChainStep {
    /// It is streamed to the client.
    Stream,
    /// It is collected and handed to the next agent.
    Collect,
}

/// What is done with the answer of the agent at a position.
pub open spec fn step_at(at: int, agents: nat) -> ChainStep {
    if at + 1 == agents {
        ChainStep::Stream
    } else {
        ChainStep::Collect
    }
}

/// Agents that answer in turn, each with the answers before it in its history.
pub struct AgentChain {
    agents: Vec<String>,
    position: usize,
    messages: Vec<Message>,
}

impl AgentChain {
    /// Whether there is an agent to ask.
    pub closed spec fn wf(&self) -> bool {
        self.position < self.agents@.len()
    }

    /// The agents.
    pub closed spec fn names(&self) -> Seq<Seq<char>> {
        texts(self.agents@)
    }

    /// The position of the agent that is asked.
    pub closed spec fn at(&self) -> int {
        self.position as int
    }

    /// The history that it is asked with.
    pub closed spec fn history(&self) -> Seq<Message> {
        self.messages@
    }

    /// A chain of agents for a conversation; `None` where there is no agent.
    pub fn new(agents: Vec<String>, messages: Vec<Message>) -> (r: Option<Self>)
        ensures
            match r {
                Some(c) => c.wf() && c.names() == texts(agents@) && c.at() == 0 && c.history()
                    == messages@,
                None => agents@.len() == 0,
            },
    {
        if agents.len() == 0 {
            None
        } else {
            Some(AgentChain { agents, position: 0, messages })
        }
    }

    /// The agent to ask.
    pub fn agent(&self) -> (r: &str)
        requires
            self.wf(),
        ensures
            r@ == self.names()[self.at()],
    {
        self.agents[self.position].as_str()
    }

    /// The history to ask it with.
    pub fn messages(&self) -> (r: &Vec<Message>)
        ensures
            r@ == self.history(),
    {
        &self.messages
    }

    /// What is done with its answer: the last agent's is streamed to the client.
    pub fn step(&self) -> (r: ChainStep)
        requires
            self.wf(),
        ensures
            r == step_at(self.at(), self.names().len()),
    {
        if self.position == self.agents.len() - 1 {
            ChainStep::Stream
        } else {
            ChainStep::Collect
        }
    }

    /// Hand the answer of an agent that is not the last to the next one.
    pub fn advance(&mut self, response_text: String)
        requires
            old(self).wf(),
            old(self).at() + 1 < old(self).names().len(),
            0 < old(self).history().len() < usize::MAX,
        ensures
            final(self).wf(),
            final(self).names() == old(self).names(),
            final(self).at() == old(self).at() + 1,
            passed_on(
                old(self).history(),
                final(self).history(),
                old(self).names()[old(self).at()],
                response_text@,
            ),
    {
        let count: usize = self.agents.len();
        assert(self.names().len() == count);
        let agent: String = self.agents[self.position].clone();
        pass_on(&mut self.messages, agent.as_str(), response_text);
        self.position += 1;
    }
}

/// Whether histories follow from each other by the answers of agents.
pub open spec fn is_chain(
    histories: Seq<Seq<Message>>,
    agents: Seq<Seq<char>>,
    answers: Seq<Seq<char>>,
) -> bool {
    &&& histories.len() == answers.len() + 1
    &&& agents.len() >= answers.len()
    &&& histories[0].len() > 0
    &&& forall|i: int|
        0 <= i < answers.len() ==> passed_on(
            #[trigger] histories[i],
            histories[i + 1],
            agents[i],
            answers[i],
        )
}

/// The conversation survives a chain of agents: however many have answered,
/// the history begins as it did, ends with the same message, and holds their
/// answers in between, in the order in which they were given.
pub proof fn chain_keeps_the_conversation(
    histories: Seq<Seq<Message>>,
    agents: Seq<Seq<char>>,
    answers: Seq<Seq<char>>,
    k: int,
)
    requires
        is_chain(histories, agents, answers),
        0 <= k <= answers.len(),
    ensures
        ({
            let first = histories[0];
            let h = histories[k];
            let n = first.len();
            &&& h.len() == n + k
            &&& h.take(n - 1) == first.drop_last()
            &&& h.last() == first.last()
            &&& forall|i: int| 0 <= i < k ==> is_answer(#[trigger] h[n - 1 + i], agents[i], answers[i])
        }),
    decreases k,
{
    let first = histories[0];
    let n = first.len();
    if k == 0 {
        assert(first.take(n - 1) =~= first.drop_last());
    } else {
        chain_keeps_the_conversation(histories, agents, answers, k - 1);
        let b = histories[k - 1];
        let h = histories[k];
        assert(passed_on(histories[k - 1], histories[k - 1 + 1], agents[k - 1], answers[k - 1]));
        assert forall|i: int| 0 <= i < b.len() - 1 implies #[trigger] h[i] == b[i] by {
            assert(h.take(b.len() - 1)[i] == b.drop_last()[i]);
        }
        assert forall|i: int| 0 <= i < n - 1 implies #[trigger] h[i] == first[i] by {
            assert(h[i] == b[i]);
            assert(b.take(n - 1)[i] == first.drop_last()[i]);
        }
        assert(h.take(n - 1) =~= first.drop_last());
        assert forall|i: int| 0 <= i < k implies is_answer(
            #[trigger] h[n - 1 + i],
            agents[i],
            answers[i],
        ) by {
            if i < k - 1 {
                assert(h[n - 1 + i] == b[n - 1 + i]);
            }
        }
    }
}

/// The client error of an agent is passed on with its status, its agent and
/// what the agent said; a status that is none becomes 400. Everything else is
/// an error of the gateway's own.
pub proof fn client_errors_are_passed_on(err: AgentFilterChainError, reply: ErrorReply)
    requires
        reply.answers(err),
    ensures
        err matches AgentFilterChainError::Pipeline(
            PipelineError::ClientError { agent, status, body },
        ) ==> {
            &&& reply is Cascaded
            &&& 100 <= status <= 999 ==> reply.code() == status
            &&& status < 100 || status > 999 ==> reply.code() == 400
            &&& reply->agent == agent
            &&& reply->agent_status == status
            &&& reply->agent_response == body
        },
        !(err matches AgentFilterChainError::Pipeline(PipelineError::ClientError { .. }))
            ==> reply.code() == 500 && reply is Structured,
{
}

/// A request is refused for its endpoint before its body is looked at, and
/// otherwise for its body alone.
pub proof fn endpoint_is_checked_first(
    path: Seq<char>,
    supported: bool,
    parsed: Result<Vec<Message>, String>,
    r: Result<Vec<Message>, AgentFilterChainError>,
)
    requires
        reads_request(path, supported, parsed, r),
    ensures
        r is Ok <==> supported && parsed is Ok,
        r is Ok ==> r->Ok_0 == parsed->Ok_0,
        r is Err ==> r->Err_0 is RequestParsing,
        !supported ==> r->Err_0.text() == "Request parsing error: "@ + ("Unsupported endpoint: "@
            + path),
{
}

proof fn lemma_without_header(headers: Seq<(String, String)>, name: Seq<char>, h: (String, String))
    ensures
        without_header(headers, name).contains(h) == (headers.contains(h) && h.0@ != name),
    decreases headers.len(),
{
    if headers.len() > 0 {
        let short = headers.drop_last();
        let last = headers[headers.len() - 1];
        assert(last == headers.last());
        lemma_without_header(short, name, h);
        let before = without_header(short, name);
        let r = without_header(headers, name);
        if short.contains(h) {
            let k = choose|k: int| 0 <= k < short.len() && short[k] == h;
            assert(headers[k] == h);
        }
        if headers.contains(h) && h != last {
            let k = choose|k: int| 0 <= k < headers.len() && headers[k] == h;
            assert(short[k] == h);
        }
        if before.contains(h) {
            let k = choose|k: int| 0 <= k < before.len() && before[k] == h;
            assert(r[k] == h);
        }
        if last.0@ != name {
            assert(r[before.len() as int] == last);
            if r.contains(h) && h != last {
                let k = choose|k: int| 0 <= k < r.len() && r[k] == h;
                assert(before[k] == h);
            }
        }
    }
}

/// Every header of a request is forwarded but the one that the proxy added,
/// which is not. A request that has an id keeps it, and every request has one.
pub proof fn headers_are_forwarded(
    headers: Seq<(String, String)>,
    original_path: Seq<char>,
    request_id: Seq<char>,
    r: Seq<(String, String)>,
    h: (String, String),
)
    requires
        forwards(headers, original_path, request_id, r),
        original_path != request_id,
    ensures
        headers.contains(h) && h.0@ != original_path ==> r.contains(h),
        r.contains(h) ==> h.0@ != original_path,
        r.contains(h) && h.0@ != request_id ==> headers.contains(h),
        exists|i: int| 0 <= i < r.len() && (#[trigger] r[i]).0@ == request_id,
        headers.contains(h) && h.0@ == request_id ==> r.len() <= headers.len(),
{
    let kept = without_header(headers, original_path);
    lemma_without_header(headers, original_path, h);
    lemma_without_len(headers, original_path);
    first_entry_counts(kept, request_id);
    if kept.contains(h) {
        let k = choose|k: int| 0 <= k < kept.len() && kept[k] == h;
        if !has_header(kept, request_id) {
            assert(r.drop_last()[k] == h);
            assert(r[k] == h);
        }
    }
    if !has_header(kept, request_id) {
        assert(r[r.len() - 1].0@ == request_id);
        if r.contains(h) {
            let k = choose|k: int| 0 <= k < r.len() && r[k] == h;
            if k < kept.len() {
                assert(r.drop_last()[k] == h);
                assert(kept[k] == h);
            }
        }
    }
}

proof fn lemma_without_len(headers: Seq<(String, String)>, name: Seq<char>)
    ensures
        without_header(headers, name).len() <= headers.len(),
    decreases headers.len(),
{
    if headers.len() > 0 {
        lemma_without_len(headers.drop_last(), name);
    }
}

/// The last agent of a chain speaks to the client, and no other does.
pub proof fn last_agent_speaks_to_the_client(at: int, agents: nat)
    requires
        0 <= at < agents,
    ensures
        step_at(agents - 1, agents) == ChainStep::Stream,
        at < agents - 1 ==> step_at(at, agents) == ChainStep::Collect,
{
}

/// What an agent answered is handed on as the assistant's word, under the
/// agent's name, and the last message stays the last.
pub proof fn answer_is_the_assistants_word(
    before: Seq<Message>,
    after: Seq<Message>,
    agent: Seq<char>,
    text: Seq<char>,
)
    requires
        before.len() > 0,
        passed_on(before, after, agent, text),
    ensures
        after.len() == before.len() + 1,
        after.last() == before.last(),
        ({
            let m = after[after.len() - 2];
            &&& m.role == Role::Assistant
            &&& m.name is Some && m.name->0@ == agent
            &&& m.content matches Some(MessageContent::Text(t)) && t@ == text
            &&& m.tool_calls is None && m.tool_call_id is None
        }),
        forall|i: int| 0 <= i < before.len() - 1 ==> #[trigger] after[i] == before[i],
{
    let n = before.len();
    assert forall|i: int| 0 <= i < n - 1 implies #[trigger] after[i] == before[i] by {
        assert(after.take(n - 1)[i] == before.drop_last()[i]);
    }
}

} // verus!
