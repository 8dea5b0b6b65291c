//! Which handler a request goes to.

use crate::handlers::agent_chat_completions::{agent_path, strip_agents};
use crate::metrics::labels::{
    HANDLER_AGENT_CHAT, HANDLER_CORS_PREFLIGHT, HANDLER_FUNCTION_CALLING, HANDLER_LIST_MODELS,
    HANDLER_LLM_CHAT, HANDLER_NOT_FOUND,
};
use crate::text::{begins_with, same_text, starts_with};
use vstd::prelude::*;

verus! {

pub const CHAT_COMPLETIONS_PATH: &'static str = "/v1/chat/completions";

pub const MESSAGES_PATH: &'static str = "/v1/messages";

pub const OPENAI_RESPONSES_API_PATH: &'static str = "/v1/responses";

/// The handlers of the gateway.
#[derive(Debug, Clone, Copy, PartialEq, Eq, Structural)]
pub enum Endpoint {
    AuthCheck,
    UsageRecord,
    BudgetBlocked,
    Management,
    /// An endpoint that needs a database, where there is none.
    Unavailable,
    AgentChat,
    LlmChat,
    FunctionCalling,
    ListModels,
    CorsPreflight,
    NotFound,
}

/// Whether a path is one of the chat APIs.
pub open spec fn is_chat_path(path: Seq<char>) -> bool {
    path == CHAT_COMPLETIONS_PATH@ || path == MESSAGES_PATH@ || path == OPENAI_RESPONSES_API_PATH@
}

fn chat_path(path: &str) -> (b: bool)
    ensures
        b == is_chat_path(path@),
{
    same_text(path, CHAT_COMPLETIONS_PATH) || same_text(path, MESSAGES_PATH) || same_text(
        path,
        OPENAI_RESPONSES_API_PATH,
    )
}

/// Whether a path lists the models.
pub open spec fn is_models_path(path: Seq<char>) -> bool {
    path == "/v1/models"@ || path == "/agents/v1/models"@
}

/// The handler of a request by its method and path, and whether there is a
/// database.
pub open spec fn endpoint_of(method: Seq<char>, path: Seq<char>, has_db: bool) -> Endpoint {
    if path == "/auth/check"@ && method == "POST"@ {
        if has_db { Endpoint::AuthCheck } else { Endpoint::Unavailable }
    } else if path == "/usage/record"@ && method == "POST"@ {
        Endpoint::UsageRecord
    } else if path == "/budget/blocked"@ && method == "GET"@ {
        Endpoint::BudgetBlocked
    } else if begins_with(path, "/api/v1/"@) {
        if has_db { Endpoint::Management } else { Endpoint::Unavailable }
    } else if agent_path(path) is Some && is_chat_path(agent_path(path)->0) {
        Endpoint::AgentChat
    } else if method == "POST"@ && is_chat_path(path) {
        Endpoint::LlmChat
    } else if method == "POST"@ && path == "/function_calling"@ {
        Endpoint::FunctionCalling
    } else if method == "GET"@ && is_models_path(path) {
        Endpoint::ListModels
    } else if method == "OPTIONS"@ && is_models_path(path) {
        Endpoint::CorsPreflight
    } else {
        Endpoint::NotFound
    }
}

/// The handler of a request.
pub fn dispatch(method: &str, path: &str, has_db: bool) -> (r: Endpoint)
    ensures
        r == endpoint_of(method@, path@, has_db),
{
    if same_text(path, "/auth/check") && same_text(method, "POST") {
        return if has_db {
            Endpoint::AuthCheck
        } else {
            Endpoint::Unavailable
        };
    }
    if same_text(path, "/usage/record") && same_text(method, "POST") {
        return Endpoint::UsageRecord;
    }
    if same_text(path, "/budget/blocked") && same_text(method, "GET") {
        return Endpoint::BudgetBlocked;
    }
    if starts_with(path, "/api/v1/") {
        return if has_db {
            Endpoint::Management
        } else {
            Endpoint::Unavailable
        };
    }
    if let Some(stripped) = strip_agents(path) {
        if chat_path(stripped) {
            return Endpoint::AgentChat;
        }
    }
    let models: bool = same_text(path, "/v1/models") || same_text(path, "/agents/v1/models");
    if same_text(method, "POST") && chat_path(path) {
        Endpoint::LlmChat
    } else if same_text(method, "POST") && same_text(path, "/function_calling") {
        Endpoint::FunctionCalling
    } else if same_text(method, "GET") && models {
        Endpoint::ListModels
    } else if same_text(method, "OPTIONS") && models {
        Endpoint::CorsPreflight
    } else {
        Endpoint::NotFound
    }
}

/// The `handler` label of an endpoint, where it has one.
pub open spec fn label_of(endpoint: Endpoint) -> Option<Seq<char>> {
    match endpoint {
        Endpoint::AgentChat => Some(HANDLER_AGENT_CHAT@),
        Endpoint::LlmChat => Some(HANDLER_LLM_CHAT@),
        Endpoint::FunctionCalling => Some(HANDLER_FUNCTION_CALLING@),
        Endpoint::ListModels => Some(HANDLER_LIST_MODELS@),
        Endpoint::CorsPreflight => Some(HANDLER_CORS_PREFLIGHT@),
        Endpoint::NotFound => Some(HANDLER_NOT_FOUND@),
        _ => None,
    }
}

/// The `handler` label of an endpoint, where it has one.
pub fn handler_label(endpoint: Endpoint) -> (r: Option<&'static str>)
    ensures
        match r {
            Some(l) => label_of(endpoint) == Some(l@),
            None => label_of(endpoint) is None,
        },
{
    match endpoint {
        Endpoint::AgentChat => Some(HANDLER_AGENT_CHAT),
        Endpoint::LlmChat => Some(HANDLER_LLM_CHAT),
        Endpoint::FunctionCalling => Some(HANDLER_FUNCTION_CALLING),
        Endpoint::ListModels => Some(HANDLER_LIST_MODELS),
        Endpoint::CorsPreflight => Some(HANDLER_CORS_PREFLIGHT),
        Endpoint::NotFound => Some(HANDLER_NOT_FOUND),
        _ => None,
    }
}

proof fn lemma_begins(s: Seq<char>, p: Seq<char>)
    requires
        begins_with(s, p),
        p.len() > 2,
    ensures
        s.len() >= p.len(),
        s[1] == p[1],
        s[2] == p[2],
{
    assert(s.subrange(0, p.len() as int)[1] == s[1]);
    assert(s.subrange(0, p.len() as int)[2] == s[2]);
}

proof fn lemma_paths()
    ensures
        !begins_with("/v1/chat/completions"@, "/api/v1/"@),
        !begins_with("/v1/messages"@, "/api/v1/"@),
        !begins_with("/v1/responses"@, "/api/v1/"@),
        !begins_with("/v1/models"@, "/api/v1/"@),
        !begins_with("/agents/v1/models"@, "/api/v1/"@),
        !begins_with("/function_calling"@, "/api/v1/"@),
        !begins_with("/auth/check"@, "/api/v1/"@),
        agent_path("/v1/chat/completions"@) is None,
        agent_path("/v1/messages"@) is None,
        agent_path("/v1/responses"@) is None,
        agent_path("/v1/models"@) is None,
        agent_path("/function_calling"@) is None,
        agent_path("/auth/check"@) is None,
        agent_path("/agents/v1/models"@) == Some("/v1/models"@),
        !is_chat_path("/v1/models"@),
        !is_chat_path("/agents/v1/models"@),
        !is_chat_path("/function_calling"@),
        !is_chat_path("/auth/check"@),
        !is_models_path("/auth/check"@),
        "/function_calling"@ != "/auth/check"@,
        "GET"@ != "POST"@,
        "GET"@ != "OPTIONS"@,
        "POST"@ != "OPTIONS"@,
{
    reveal_strlit("/v1/chat/completions");
    reveal_strlit("/v1/messages");
    reveal_strlit("/v1/responses");
    reveal_strlit("/v1/models");
    reveal_strlit("/agents/v1/models");
    reveal_strlit("/agents");
    reveal_strlit("/api/v1/");
    reveal_strlit("/function_calling");
    reveal_strlit("/auth/check");
    reveal_strlit("GET");
    reveal_strlit("POST");
    reveal_strlit("OPTIONS");
    let api = "/api/v1/"@;
    let agents = "/agents"@;
    let chat = "/v1/chat/completions"@;
    let messages = "/v1/messages"@;
    let responses = "/v1/responses"@;
    let models = "/v1/models"@;
    let agent_models = "/agents/v1/models"@;
    let calling = "/function_calling"@;
    let auth = "/auth/check"@;
    assert(chat[1] == 'v' && messages[1] == 'v' && responses[1] == 'v' && models[1] == 'v');
    assert(calling[1] == 'f' && api[1] == 'a' && agents[1] == 'a');
    assert(api[2] == 'p' && agents[2] == 'g' && agent_models[2] == 'g' && auth[2] == 'u');
    assert forall|s: Seq<char>| #[trigger] begins_with(s, api) implies s[1] == 'a' && s[2] == 'p' by {
        lemma_begins(s, api);
    }
    assert forall|s: Seq<char>| #[trigger] begins_with(s, agents) implies s[1] == 'a' && s[2]
        == 'g' by {
        lemma_begins(s, agents);
    }
    assert(agent_models.subrange(0, 7) =~= agents);
    assert(agent_models.skip(7) =~= models);
    assert(chat.len() == 20 && messages.len() == 12 && responses.len() == 13);
    assert(models.len() == 10 && agent_models.len() == 17 && calling.len() == 17);
    assert(auth.len() == 11);
    assert("GET"@.len() == 3 && "POST"@.len() == 4 && "OPTIONS"@.len() == 7);
}

/// A chat request that is posted goes to the models, with a database or not.
pub proof fn chats_go_to_the_models(has_db: bool)
    ensures
        endpoint_of("POST"@, "/v1/chat/completions"@, has_db) == Endpoint::LlmChat,
        endpoint_of("POST"@, "/v1/messages"@, has_db) == Endpoint::LlmChat,
        endpoint_of("POST"@, "/v1/responses"@, has_db) == Endpoint::LlmChat,
        endpoint_of("GET"@, "/v1/chat/completions"@, has_db) == Endpoint::NotFound,
{
    lemma_paths();
    lemma_chat_is_no_other();
}

proof fn lemma_chat_is_no_other()
    ensures
        "/v1/chat/completions"@ != "/auth/check"@,
        "/v1/chat/completions"@ != "/usage/record"@,
        "/v1/chat/completions"@ != "/budget/blocked"@,
        "/v1/messages"@ != "/auth/check"@,
        "/v1/messages"@ != "/usage/record"@,
        "/v1/messages"@ != "/budget/blocked"@,
        "/v1/responses"@ != "/auth/check"@,
        "/v1/responses"@ != "/usage/record"@,
        "/v1/responses"@ != "/budget/blocked"@,
        "/v1/models"@ != "/auth/check"@,
        "/v1/models"@ != "/usage/record"@,
        "/v1/models"@ != "/budget/blocked"@,
        "/agents/v1/models"@ != "/auth/check"@,
        "/agents/v1/models"@ != "/usage/record"@,
        "/agents/v1/models"@ != "/budget/blocked"@,
        "/function_calling"@ != "/auth/check"@,
        "/function_calling"@ != "/usage/record"@,
        "/function_calling"@ != "/budget/blocked"@,
        "/auth/check"@ != "/usage/record"@,
        "/auth/check"@ != "/budget/blocked"@,
        "/usage/record"@ != "/budget/blocked"@,
        !is_models_path("/v1/chat/completions"@),
{
    reveal_strlit("/v1/chat/completions");
    reveal_strlit("/v1/messages");
    reveal_strlit("/v1/responses");
    reveal_strlit("/v1/models");
    reveal_strlit("/agents/v1/models");
    reveal_strlit("/function_calling");
    reveal_strlit("/auth/check");
    reveal_strlit("/usage/record");
    reveal_strlit("/budget/blocked");
    assert("/auth/check"@.len() == 11);
    assert("/usage/record"@.len() == 13);
    assert("/usage/record"@[1] == 'u');
    assert("/v1/responses"@[1] == 'v');
    assert("/budget/blocked"@.len() == 15);
    assert("/v1/chat/completions"@.len() == 20);
    assert("/v1/messages"@.len() == 12);
    assert("/v1/models"@.len() == 10);
    assert("/agents/v1/models"@.len() == 17);
    assert("/function_calling"@.len() == 17);
}

/// A chat path behind "/agents" goes to the agents, by any method.
pub proof fn agents_have_their_own_paths(method: Seq<char>, path: Seq<char>, has_db: bool)
    requires
        path == "/v1/chat/completions"@ || path == "/v1/messages"@ || path == "/v1/responses"@,
    ensures
        endpoint_of(method, "/agents"@ + path, has_db) == Endpoint::AgentChat,
{
    reveal_strlit("/agents");
    reveal_strlit("/api/v1/");
    reveal_strlit("/auth/check");
    reveal_strlit("/usage/record");
    reveal_strlit("/budget/blocked");
    let full = "/agents"@ + path;
    assert(full[1] == 'a' && full[2] == 'g');
    assert(full.subrange(0, 7) =~= "/agents"@);
    assert(full.skip(7) =~= path);
    assert("/auth/check"@[2] == 'u');
    assert("/usage/record"@[1] == 'u');
    assert("/budget/blocked"@[1] == 'b');
    if begins_with(full, "/api/v1/"@) {
        lemma_begins(full, "/api/v1/"@);
        assert("/api/v1/"@[2] == 'p');
    }
}

/// Models are listed for who gets them, here and for agents, and a browser
/// may ask first.
pub proof fn models_are_listed(has_db: bool)
    ensures
        endpoint_of("GET"@, "/v1/models"@, has_db) == Endpoint::ListModels,
        endpoint_of("GET"@, "/agents/v1/models"@, has_db) == Endpoint::ListModels,
        endpoint_of("OPTIONS"@, "/v1/models"@, has_db) == Endpoint::CorsPreflight,
        endpoint_of("OPTIONS"@, "/agents/v1/models"@, has_db) == Endpoint::CorsPreflight,
        endpoint_of("POST"@, "/v1/models"@, has_db) == Endpoint::NotFound,
        endpoint_of("POST"@, "/function_calling"@, has_db) == Endpoint::FunctionCalling,
{
    lemma_paths();
    lemma_chat_is_no_other();
    reveal_strlit("/v1/models");
    reveal_strlit("/function_calling");
    assert("/v1/models"@.len() != "/function_calling"@.len());
}

/// What needs a database is unavailable without one; usage and blocked
/// projects are answered all the same.
pub proof fn database_decides_what_is_available(method: Seq<char>, path: Seq<char>, has_db: bool)
    ensures
        endpoint_of("POST"@, "/auth/check"@, true) == Endpoint::AuthCheck,
        endpoint_of("POST"@, "/auth/check"@, false) == Endpoint::Unavailable,
        endpoint_of("GET"@, "/auth/check"@, has_db) == Endpoint::NotFound,
        endpoint_of("POST"@, "/usage/record"@, has_db) == Endpoint::UsageRecord,
        endpoint_of("GET"@, "/budget/blocked"@, has_db) == Endpoint::BudgetBlocked,
        begins_with(path, "/api/v1/"@) ==> endpoint_of(method, path, true) == Endpoint::Management
            && endpoint_of(method, path, false) == Endpoint::Unavailable,
        endpoint_of(method, path, has_db) is Unavailable ==> !has_db,
{
    lemma_paths();
    lemma_chat_is_no_other();
    reveal_strlit("/api/v1/");
    reveal_strlit("/auth/check");
    reveal_strlit("/usage/record");
    reveal_strlit("/budget/blocked");
    reveal_strlit("/function_calling");
    assert("/auth/check"@.len() != "/function_calling"@.len());
    if begins_with(path, "/api/v1/"@) {
        lemma_begins(path, "/api/v1/"@);
        assert("/api/v1/"@[2] == 'p');
        assert("/auth/check"@[2] == 'u');
        assert("/usage/record"@[1] == 'u');
        assert("/budget/blocked"@[1] == 'b');
    }
}

/// Every handler that serves clients is counted under a name of its own.
pub proof fn handlers_are_counted_by_name()
    ensures
        label_of(Endpoint::AgentChat) == Some("agent_chat"@),
        label_of(Endpoint::LlmChat) == Some("llm_chat"@),
        label_of(Endpoint::FunctionCalling) == Some("function_calling"@),
        label_of(Endpoint::ListModels) == Some("list_models"@),
        label_of(Endpoint::CorsPreflight) == Some("cors_preflight"@),
        label_of(Endpoint::NotFound) == Some("not_found"@),
        label_of(Endpoint::Management) is None,
        label_of(Endpoint::AuthCheck) is None,
{
}

} // verus!
