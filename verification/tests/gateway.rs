//! Dispatch, agent chains, histories and the other parts of the gateway.

use brightstaff::chat::{Message, MessageContent, Role};
use brightstaff::dispatch::{dispatch, handler_label, Endpoint};
use brightstaff::expiring_map::ExpiringMap;
use brightstaff::handlers::agent_chat_completions::{
    error_reply, forward_headers, pass_on, read_request, strip_agents, AgentChain,
    AgentFilterChainError, ChainStep, ErrorReply, PipelineError,
};
use brightstaff::metrics::labels::{PROMPT_CACHE_HIT, SESSION_CACHE_STORE, TOKEN_KIND_CACHE_READ};
use brightstaff::natural::{Natural, Ratio};
use brightstaff::session_cache::{
    init_session_cache, record_route_visit, RouteVisit, SessionBackend, SessionCacheType,
    MAX_ROUTE_HISTORY,
};
use brightstaff::text::{fixed_point, split_at_char, strip, trim_space};

#[test]
fn requests_reach_their_handler() {
    for (method, path, has_db, endpoint) in [
        ("POST", "/auth/check", true, Endpoint::AuthCheck),
        ("POST", "/auth/check", false, Endpoint::Unavailable),
        ("GET", "/auth/check", true, Endpoint::NotFound),
        ("POST", "/usage/record", false, Endpoint::UsageRecord),
        ("GET", "/budget/blocked", false, Endpoint::BudgetBlocked),
        ("PUT", "/api/v1/anything", true, Endpoint::Management),
        ("PUT", "/api/v1/anything", false, Endpoint::Unavailable),
        ("GET", "/agents/v1/messages", true, Endpoint::AgentChat),
        ("POST", "/agents/v1/responses", true, Endpoint::AgentChat),
        ("POST", "/v1/chat/completions", true, Endpoint::LlmChat),
        ("GET", "/v1/chat/completions", true, Endpoint::NotFound),
        ("POST", "/function_calling", true, Endpoint::FunctionCalling),
        ("GET", "/v1/models", true, Endpoint::ListModels),
        ("GET", "/agents/v1/models", true, Endpoint::ListModels),
        ("OPTIONS", "/v1/models", true, Endpoint::CorsPreflight),
        ("GET", "/agents", true, Endpoint::NotFound),
    ] {
        assert_eq!(dispatch(method, path, has_db), endpoint, "{} {}", method, path);
    }
    assert_eq!(handler_label(Endpoint::LlmChat), Some("llm_chat"));
    assert_eq!(handler_label(Endpoint::NotFound), Some("not_found"));
    assert_eq!(handler_label(Endpoint::Management), None);
}

fn message(role: Role, text: &str) -> Message {
    Message {
        role,
        content: Some(MessageContent::Text(text.to_string())),
        name: None,
        tool_calls: None,
        tool_call_id: None,
    }
}

#[test]
fn answers_go_before_the_last_message() {
    let mut messages = vec![message(Role::User, "a"), message(Role::User, "b")];
    pass_on(&mut messages, "agent-1", "answer".to_string());
    let texts: Vec<String> = messages.iter().map(|m| m.extract_text()).collect();
    assert_eq!(texts, vec!["a", "answer", "b"]);
    assert_eq!(messages[1].role, Role::Assistant);
    assert_eq!(messages[1].name.as_deref(), Some("agent-1"));
    let agents = vec!["x".to_string(), "y".to_string(), "z".to_string()];
    let mut chain = AgentChain::new(agents, messages).unwrap();
    assert_eq!(chain.agent(), "x");
    assert_eq!(chain.step(), ChainStep::Collect);
    chain.advance("from x".to_string());
    chain.advance("from y".to_string());
    assert_eq!(chain.agent(), "z");
    assert_eq!(chain.step(), ChainStep::Stream);
    let texts: Vec<String> = chain.messages().iter().map(|m| m.extract_text()).collect();
    assert_eq!(texts, vec!["a", "answer", "from x", "from y", "b"]);
    assert!(AgentChain::new(Vec::new(), Vec::new()).is_none());
    assert_eq!(strip_agents("/agents/v1/messages"), Some("/v1/messages"));
    assert_eq!(strip_agents("/v1/messages"), None);
}

#[test]
fn unreadable_requests_are_refused() {
    let e = read_request("/v1/x", false, Ok(Vec::new())).unwrap_err();
    assert_eq!(e.message(), "Request parsing error: Unsupported endpoint: /v1/x");
    let e = read_request("/v1/messages", true, Err("eof".to_string())).unwrap_err();
    assert_eq!(
        e.message(),
        "Request parsing error: Failed to parse request: eof"
    );
    let ok = read_request("/v1/messages", true, Ok(vec![message(Role::User, "a")])).unwrap();
    assert_eq!(ok.len(), 1);
}

#[test]
fn forwarded_headers_name_the_request() {
    let h = |n: &str, v: &str| (n.to_string(), v.to_string());
    let kept = forward_headers(
        vec![h("a", "1"), h("x-path", "/p"), h("x-request-id", "r")],
        "x-path",
        "x-request-id",
    );
    assert_eq!(kept, vec![h("a", "1"), h("x-request-id", "r")]);
    let made = forward_headers(vec![h("a", "1")], "x-path", "x-request-id");
    assert_eq!(made.len(), 2);
    assert_eq!(made[1].0, "x-request-id");
    assert!(uuid::Uuid::parse_str(&made[1].1).is_ok());
}

#[test]
fn client_errors_cascade() {
    let client = |status| {
        AgentFilterChainError::Pipeline(PipelineError::ClientError {
            agent: "a".to_string(),
            status,
            body: "no".to_string(),
        })
    };
    assert_eq!(client(422).cascaded_status(), Some(422));
    assert_eq!(client(7).cascaded_status(), Some(400));
    assert_eq!(
        client(422).message(),
        "Pipeline processing error: Client error from agent 'a' (HTTP 422): no"
    );
    match error_reply(client(7)) {
        ErrorReply::Cascaded {
            status,
            agent,
            agent_status,
            agent_response,
        } => {
            assert_eq!((status, agent_status), (400, 7));
            assert_eq!((agent.as_str(), agent_response.as_str()), ("a", "no"));
        }
        ErrorReply::Structured { .. } => panic!("client errors are passed on"),
    }
    assert_eq!(error_reply(client(422)).status(), 422);
    let other = AgentFilterChainError::Pipeline(PipelineError::Other("x".to_string()));
    assert_eq!(other.cascaded_status(), None);
    let reply = error_reply(other);
    assert_eq!(reply.status(), 500);
    assert!(matches!(
        reply,
        ErrorReply::Structured { message } if message == "Pipeline processing error: x"
    ));
    for (e, text) in [
        (
            AgentFilterChainError::Selection("m".to_string()),
            "Agent selection error: m",
        ),
        (
            AgentFilterChainError::Response("m".to_string()),
            "Response handling error: m",
        ),
        (
            AgentFilterChainError::RequestParsing("m".to_string()),
            "Request parsing error: m",
        ),
        (AgentFilterChainError::Http("m".to_string()), "HTTP error: m"),
    ] {
        assert_eq!(e.message(), text);
    }
}

#[test]
fn history_keeps_the_latest_models() {
    let mut history: Vec<RouteVisit> = Vec::new();
    for i in 0..(MAX_ROUTE_HISTORY + 3) {
        record_route_visit(&mut history, &format!("m{}", i), 100 + i as u64, 10);
    }
    assert_eq!(history.len(), MAX_ROUTE_HISTORY);
    assert!(history.iter().all(|v| v.last_used >= 103));
    record_route_visit(&mut history, "m5", 500, 77);
    assert_eq!(history.len(), MAX_ROUTE_HISTORY);
    let again = history.iter().find(|v| v.model == "m5").unwrap();
    assert_eq!((again.last_used, again.cached_tokens), (500, 77));
}

#[test]
fn session_backend_follows_the_configuration() {
    assert!(matches!(
        init_session_cache(None, None, None),
        SessionBackend::Memory {
            max_entries: 10_000
        }
    ));
    assert!(matches!(
        init_session_cache(Some(5), Some(SessionCacheType::Memory), None),
        SessionBackend::Memory { max_entries: 5 }
    ));
    assert!(matches!(
        init_session_cache(Some(99_999), None, None),
        SessionBackend::Memory {
            max_entries: 10_000
        }
    ));
    assert!(matches!(
        init_session_cache(None, Some(SessionCacheType::Redis), None),
        SessionBackend::MissingUrl
    ));
    match init_session_cache(None, Some(SessionCacheType::Redis), Some("redis://r")) {
        SessionBackend::Redis { url } => assert_eq!(url, "redis://r"),
        other => panic!("unexpected backend {:?}", other),
    }
}

#[test]
fn expiring_entries_live_for_their_time() {
    let mut m: ExpiringMap<u8> = ExpiringMap::new(2);
    m.put("a", 1, 10, 5);
    m.put("b", 2, 20, 100);
    assert_eq!(m.get("a", 14), Some(&1));
    assert_eq!(m.get("a", 15), None);
    assert!(m.contains_key("a"));
    m.put("c", 3, 30, 100);
    assert!(!m.contains_key("a"), "the oldest entry makes room");
    assert_eq!(m.len(), 2);
    assert_eq!(m.cleanup_expired(125), 1);
    assert_eq!(m.get("c", 125), Some(&3));
    m.remove("c");
    assert_eq!(m.len(), 0);
}

#[test]
fn naturals_do_not_overflow() {
    let big = Natural::new(u128::MAX);
    let square = big.times(&big);
    let back = square.minus(&big.times(&Natural::new(u128::MAX - 1)));
    assert!(back.at_least(&big) && big.at_least(&back));
    assert!(square.plus(&Natural::new(1)).at_least(&square));
    assert!(!square.at_least(&square.plus(&Natural::new(1))));
    assert!(Ratio::new(2, 3).at_least(&Ratio::new(4, 6)));
    assert!(!Ratio::new(2, 3).at_least(&Ratio::new(5, 7)));
}

#[test]
fn texts_are_cut_and_written() {
    assert_eq!(split_at_char("a,,b", ','), vec!["a", "", "b"]);
    assert_eq!(split_at_char("", ','), vec![""]);
    assert_eq!(strip("übung/x", "übung/"), Some("x"));
    assert_eq!(strip("x", "übung/"), None);
    assert_eq!(trim_space("\u{a0} x y\n"), "x y");
    assert_eq!(fixed_point(1, 8, 2), "0.12");
    assert_eq!(fixed_point(3, 8, 2), "0.38");
    assert_eq!(fixed_point(999_999, 1_000_000, 3), "1.000");
    assert_eq!(
        fixed_point(u128::MAX, 1, 1),
        "340282366920938463463374607431768211455.0"
    );
    assert_eq!(fixed_point(u128::MAX - 1, u128::MAX, 3), "1.000");
    assert_eq!(fixed_point(u128::MAX / 3, u128::MAX, 2), "0.33");
}

#[test]
fn labels_are_fixed() {
    assert_eq!(PROMPT_CACHE_HIT, "hit");
    assert_eq!(SESSION_CACHE_STORE, "store");
    assert_eq!(TOKEN_KIND_CACHE_READ, "cache_read");
}
