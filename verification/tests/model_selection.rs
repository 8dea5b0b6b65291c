//! From routing decisions to upstream requests.

use brightstaff::chat::{ContentPart, Conversion, Message, MessageContent, Role};
use brightstaff::handlers::llm::model_selection::{
    inject_activated_skills_into_request, route_label_for_path, routed_messages,
    router_chat_get_upstream_model, set_system_prompt, system_prompt_of, RouteSelection,
};
use brightstaff::handlers::llm::prompt_caching::{
    plan_cache_markers, CacheMarkerStrategy, MarkerPlan, MarkerSettings, RequestKind,
};
use brightstaff::skills::SkillRef;

fn user_msg(text: &str) -> Message {
    Message {
        role: Role::User,
        content: Some(MessageContent::Text(text.to_string())),
        name: None,
        tool_calls: None,
        tool_call_id: None,
    }
}

fn system_msg(text: &str) -> Message {
    Message {
        role: Role::System,
        content: Some(MessageContent::Text(text.to_string())),
        name: None,
        tool_calls: None,
        tool_call_id: None,
    }
}

fn skill(name: &str, body: &str) -> SkillRef {
    SkillRef {
        name: name.to_string(),
        description: format!("desc for {name}"),
        path: None,
        base_dir: None,
        body: Some(body.to_string()),
        scope: Some("project".to_string()),
        compatibility: None,
        license: None,
        metadata: None,
        allowed_tools: None,
    }
}

/// Injects skills, each written as a block behind the system prompt.
fn inject(messages: &mut Vec<Message>, skills: &[SkillRef]) {
    let mut blocks: Vec<String> = system_prompt_of(messages).into_iter().collect();
    for s in skills {
        let body = s.body.as_deref().unwrap_or_default();
        blocks.push(format!("<skill_content name=\"{}\">{body}</skill_content>", s.name));
    }
    inject_activated_skills_into_request(messages, skills, Some(blocks.join("\n")));
}

fn first_system_text(messages: &[Message]) -> String {
    messages
        .iter()
        .find(|m| m.role == Role::System)
        .and_then(|m| m.content.as_ref())
        .map(|c| c.extract_text())
        .unwrap_or_default()
}

#[test]
fn injects_new_system_message_when_none_present() {
    let mut messages = vec![user_msg("hi")];
    inject(&mut messages, &[skill("pdf", "process pdfs")]);
    assert_eq!(messages.len(), 2);
    assert_eq!(messages[0].role, Role::System);
    let txt = first_system_text(&messages);
    assert!(txt.contains("<skill_content name=\"pdf\""));
    assert!(txt.contains("process pdfs"));
}

#[test]
fn augments_existing_system_message_in_place_preserving_user_message() {
    let mut messages = vec![system_msg("you are helpful"), user_msg("hi")];
    inject(&mut messages, &[skill("pdf", "process pdfs")]);
    assert_eq!(messages.len(), 2);
    let txt = first_system_text(&messages);
    assert!(txt.starts_with("you are helpful"));
    assert!(txt.contains("<skill_content name=\"pdf\""));
    assert_eq!(messages[1].role, Role::User);
}

#[test]
fn noop_when_no_skills_activated() {
    let mut messages = vec![system_msg("base"), user_msg("hi")];
    let before = messages.len();
    inject(&mut messages, &[]);
    assert_eq!(messages.len(), before);
    assert_eq!(first_system_text(&messages), "base");
}

#[test]
fn augments_only_the_first_system_message() {
    // Two system messages (rare in practice). Only the first one is
    // augmented; the trailing one is left untouched. Documented contract.
    let mut messages = vec![
        system_msg("primary"),
        system_msg("secondary"),
        user_msg("hi"),
    ];
    inject(&mut messages, &[skill("pdf", "process pdfs")]);
    assert!(messages[0]
        .content
        .as_ref()
        .unwrap()
        .extract_text()
        .contains("primary"));
    assert!(messages[0]
        .content
        .as_ref()
        .unwrap()
        .extract_text()
        .contains("<skill_content"));
    assert_eq!(
        messages[1].content.as_ref().unwrap().extract_text(),
        "secondary"
    );
}

#[test]
fn flattens_parts_system_content() {
    // Documented behavior: `MessageContent::Parts` system content is
    // extracted to plain text via ExtractText and re-emitted as
    // `MessageContent::Text`. Non-text parts (e.g. images) are dropped
    // — no production provider ships images in a system message.
    let parts_system = Message {
        role: Role::System,
        content: Some(MessageContent::Parts(vec![
            ContentPart::Text {
                text: "be brief".to_string(),
            },
            ContentPart::Text {
                text: " and polite".to_string(),
            },
        ])),
        name: None,
        tool_calls: None,
        tool_call_id: None,
    };
    let mut messages = vec![parts_system, user_msg("hi")];
    inject(&mut messages, &[skill("pdf", "body")]);
    let system = &messages[0];
    match system.content.as_ref().unwrap() {
        MessageContent::Text(t) => {
            assert!(t.contains("be brief"));
            assert!(t.contains(" and polite"));
            assert!(t.contains("<skill_content name=\"pdf\""));
        }
        MessageContent::Parts(_) => panic!("expected flattened text, got Parts"),
    }
}

#[test]
fn injects_in_orchestrator_order_for_multiple_skills() {
    let mut messages = vec![user_msg("hi")];
    inject(
        &mut messages,
        &[skill("first", "alpha-body"), skill("second", "beta-body")],
    );
    let txt = first_system_text(&messages);
    let first_pos = txt.find("alpha-body").expect("first skill body present");
    let second_pos = txt.find("beta-body").expect("second skill body present");
    assert!(
        first_pos < second_pos,
        "skills should appear in the order they were activated"
    );
}

#[test]
fn skills_without_a_prompt_change_nothing() {
    let mut messages = vec![system_msg("base"), user_msg("hi")];
    assert_eq!(system_prompt_of(&messages).as_deref(), Some("base"));
    inject_activated_skills_into_request(&mut messages, &[skill("pdf", "b")], None);
    assert_eq!(messages.len(), 2);
    assert_eq!(first_system_text(&messages), "base");
    inject_activated_skills_into_request(&mut messages, &[], Some("other".to_string()));
    assert_eq!(first_system_text(&messages), "base");
    inject_activated_skills_into_request(
        &mut messages,
        &[skill("pdf", "b")],
        Some("other".to_string()),
    );
    assert_eq!(first_system_text(&messages), "other");
    assert_eq!(system_prompt_of(&vec![user_msg("hi")]), None);
}

#[test]
fn paths_have_fixed_labels() {
    assert_eq!(route_label_for_path("/agents/v1/chat/completions"), "agent");
    assert_eq!(route_label_for_path("/routing/v1/messages"), "routing");
    assert_eq!(route_label_for_path("/v1/messages"), "llm");
}

fn selection(route: Option<&str>, models: &[&str]) -> RouteSelection {
    RouteSelection {
        route_name: route.map(|r| r.to_string()),
        models: models.iter().map(|m| m.to_string()).collect(),
        activated_skills: vec![skill("pdf", "b")],
    }
}

#[test]
fn skills_alone_keep_the_requested_model() {
    let r = router_chat_get_upstream_model(Ok(Some(selection(None, &[])))).unwrap();
    assert_eq!(r.model_name, "none");
    assert_eq!(r.models, vec!["none"]);
    assert_eq!(r.activated_skills.len(), 1);
    let r = router_chat_get_upstream_model(Ok(Some(selection(Some("code"), &["a", "b"])))).unwrap();
    assert_eq!(r.model_name, "a");
    assert_eq!(r.models, vec!["a", "b"]);
    assert_eq!(r.route_name.as_deref(), Some("code"));
    let r = router_chat_get_upstream_model(Ok(None)).unwrap();
    assert_eq!(r.model_name, "none");
    assert!(r.activated_skills.is_empty());
    let e = router_chat_get_upstream_model(Err("down".to_string())).unwrap_err();
    assert_eq!(e.status_code, 500);
    assert_eq!(e.message, "Failed to determine route: down");
}

#[test]
fn cache_markers_follow_strategy_and_request() {
    let on = MarkerSettings {
        enabled: true,
        inject_cache_control: true,
        min_prefix_tokens: 1024,
    };
    let breakpoints = CacheMarkerStrategy::AnthropicMessagesBreakpoints {
        min_prefix_tokens: 2048,
    };
    assert_eq!(
        plan_cache_markers(breakpoints, RequestKind::Messages, &on, false),
        MarkerPlan::Breakpoints { threshold: 2048 }
    );
    assert_eq!(
        plan_cache_markers(breakpoints, RequestKind::ChatCompletions, &on, false),
        MarkerPlan::Untouched
    );
    let parts = CacheMarkerStrategy::OpenAiContentPartCacheControl {
        min_prefix_tokens: 10,
        ttl_seconds: Some(300),
    };
    assert_eq!(
        plan_cache_markers(parts, RequestKind::ChatCompletions, &on, false),
        MarkerPlan::CacheControl {
            threshold: 1024,
            ttl_seconds: Some(300)
        }
    );
    assert_eq!(
        plan_cache_markers(parts, RequestKind::ChatCompletions, &on, true),
        MarkerPlan::Untouched
    );
    let off = MarkerSettings {
        enabled: false,
        ..on
    };
    assert_eq!(
        plan_cache_markers(breakpoints, RequestKind::Messages, &off, false),
        MarkerPlan::Untouched
    );
}

#[test]
fn requests_that_are_no_chat_are_not_routed() {
    assert!(routed_messages(Conversion::Chat(Vec::new()))
        .unwrap()
        .is_empty());
    let e = routed_messages(Conversion::OtherKind).unwrap_err();
    assert_eq!(
        (e.status_code, e.message.as_str()),
        (500, "Request conversion failed")
    );
    let e = routed_messages(Conversion::Failed("x".to_string())).unwrap_err();
    assert_eq!(e.message, "Failed to convert request: x");
}

#[test]
fn a_system_prompt_takes_the_place_of_the_first() {
    let mut messages = vec![user_msg("hi"), system_msg("old"), system_msg("kept")];
    set_system_prompt(&mut messages, "new".to_string());
    let texts: Vec<String> = messages.iter().map(|m| m.extract_text()).collect();
    assert_eq!(texts, ["hi", "new", "kept"]);
    let mut messages = vec![user_msg("hi")];
    set_system_prompt(&mut messages, "new".to_string());
    assert_eq!(messages.len(), 2);
    assert_eq!(messages[0].role, Role::System);
    assert_eq!(messages[0].extract_text(), "new");
}
