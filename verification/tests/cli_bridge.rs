//! The bridge to a command-line assistant.

use brightstaff::handlers::claude_cli::process::{
    fresh_cli_session_id, normalize_model_arg, scrubbed_env_for_spawn, spawn_args, TurnInput,
    TurnStep, TurnStream,
};
use brightstaff::handlers::claude_cli::server::{
    bridge_route, format_sse, wants_stream, BridgeFailure, BridgeRoute, CliEvent, CliResult,
    StreamEventKind, StreamFrame, TurnFrames,
};
use brightstaff::handlers::claude_cli::session::{
    seed_for, session_from_header, session_header, MessagesContentBlock, MessagesMessage,
    MessagesMessageContent, MessagesRequest, MessagesRole, MessagesSystemPrompt,
};
use brightstaff::handlers::claude_cli::{
    ClaudeCliConfig, ProcessError, SessionManager, SessionManagerConfig,
};

#[test]
fn normalize_model_arg_strips_prefix() {
    assert_eq!(normalize_model_arg("cli-bridge", "cli-bridge/sonnet"), "sonnet");
    assert_eq!(
        normalize_model_arg("cli-bridge", "cli-bridge/opus-4-7"),
        "opus-4-7"
    );
    assert_eq!(normalize_model_arg("cli-bridge", "sonnet"), "sonnet");
}

fn req(model: &str, user: &str, system: Option<&str>) -> MessagesRequest {
    MessagesRequest {
        model: model.to_string(),
        messages: vec![MessagesMessage {
            role: MessagesRole::User,
            content: MessagesMessageContent::Single(user.to_string()),
        }],
        system: system.map(|s| MessagesSystemPrompt::Single(s.to_string())),
        stream: Some(true),
    }
}

#[test]
fn header_uuid_is_used_as_is() {
    let id = "550e8400-e29b-41d4-a716-446655440000";
    let r = req("sonnet", "hi", None);
    assert_eq!(SessionManager::resolve_session_id(Some(id), &r), id);
}

#[test]
fn header_non_uuid_is_normalized_to_uuid() {
    let r = req("sonnet", "hi", None);
    let id = SessionManager::resolve_session_id(Some("my-token"), &r);
    assert!(uuid::Uuid::parse_str(&id).is_ok());
    let id2 = SessionManager::resolve_session_id(Some("my-token"), &r);
    assert_eq!(id, id2);
}

#[test]
fn empty_header_falls_back_to_hash() {
    let r = req("sonnet", "hi", Some("you are helpful"));
    let id = SessionManager::resolve_session_id(Some(""), &r);
    assert!(uuid::Uuid::parse_str(&id).is_ok());
    let id2 = SessionManager::resolve_session_id(None, &r);
    assert_eq!(id, id2);
}

#[test]
fn hash_is_stable_across_repeats_and_distinct_across_inputs() {
    let r1 = req("sonnet", "hello", None);
    let r2 = req("sonnet", "hello", None);
    let r3 = req("sonnet", "different", None);
    let r4 = req("opus", "hello", None);
    assert_eq!(
        SessionManager::resolve_session_id(None, &r1),
        SessionManager::resolve_session_id(None, &r2)
    );
    assert_ne!(
        SessionManager::resolve_session_id(None, &r1),
        SessionManager::resolve_session_id(None, &r3)
    );
    assert_ne!(
        SessionManager::resolve_session_id(None, &r1),
        SessionManager::resolve_session_id(None, &r4)
    );
}

#[test]
fn seed_joins_model_system_and_first_user_message() {
    let r = MessagesRequest {
        model: "m".to_string(),
        messages: vec![
            MessagesMessage {
                role: MessagesRole::Assistant,
                content: MessagesMessageContent::Single("skip".to_string()),
            },
            MessagesMessage {
                role: MessagesRole::User,
                content: MessagesMessageContent::Blocks(vec![
                    MessagesContentBlock::Text {
                        text: "a".to_string(),
                    },
                    MessagesContentBlock::Other,
                    MessagesContentBlock::Text {
                        text: "b".to_string(),
                    },
                ]),
            },
        ],
        system: None,
        stream: None,
    };
    assert_eq!(seed_for(&r), "m\u{1f}\u{1f}a\nb");
}

#[test]
fn seeded_ids_are_version_five() {
    let id = session_from_header("my-token", false).unwrap();
    assert_eq!(
        id,
        uuid::Uuid::new_v5(&uuid::Uuid::NAMESPACE_OID, b"my-token").to_string()
    );
    assert_eq!(session_from_header("x", true).as_deref(), Some("x"));
    assert_eq!(session_from_header("", true), None);
    assert_eq!(session_header("cli-bridge"), "x-arch-cli-bridge-session");
}

#[test]
fn fresh_ids_are_random_uuids() {
    let a = fresh_cli_session_id();
    let id = uuid::Uuid::parse_str(&a).unwrap();
    assert_eq!(id.get_version_num(), 4);
    assert_eq!(id.get_variant(), uuid::Variant::RFC4122);
    assert_ne!(a, fresh_cli_session_id());
}

#[test]
fn spawn_arguments_and_environment() {
    let config = ClaudeCliConfig::for_program("prog");
    assert_eq!(config.session_ttl, 600_000);
    assert_eq!(config.watchdog, 120_000);
    let args = spawn_args(&config, "cli", "cli/sonnet", "id-1", Some("be kind"));
    assert_eq!(
        args.join(" "),
        "-p --output-format stream-json --input-format stream-json --verbose \
         --include-partial-messages --permission-mode bypassPermissions --model sonnet \
         --session-id id-1 --no-session-persistence --append-system-prompt be kind"
    );
    assert_eq!(spawn_args(&config, "cli", "sonnet", "id-1", None).len(), 14);
    let var = |k: &str| (k.to_string(), "v".to_string());
    let env = scrubbed_env_for_spawn(vec![
        var("PATH"),
        var("ANTHROPIC_API_KEY"),
        var("OTEL_X"),
        var("HOME"),
    ]);
    assert_eq!(env, vec![var("PATH"), var("HOME")]);
}

#[test]
fn turns_end_with_result_silence_or_exit() {
    let mut turn = TurnStream::new();
    assert_eq!(
        turn.step(TurnInput::Event { is_result: false }),
        Some(TurnStep::Deliver)
    );
    assert_eq!(
        turn.step(TurnInput::Event { is_result: true }),
        Some(TurnStep::Deliver)
    );
    assert_eq!(turn.step(TurnInput::Event { is_result: false }), None);
    assert_eq!(
        TurnStream::new().step(TurnInput::Closed),
        Some(TurnStep::ExitedEarly)
    );
    assert_eq!(
        TurnStream::new().step(TurnInput::Silence),
        Some(TurnStep::WatchdogTimeout)
    );
}

#[test]
fn process_errors_read_well() {
    let text = |e: ProcessError| e.message("prog");
    assert_eq!(
        text(ProcessError::Spawn {
            binary: "prog".to_string(),
            source: "no such file".to_string()
        }),
        "failed to spawn `prog`: no such file"
    );
    assert_eq!(
        text(ProcessError::StdinWrite("e".to_string())),
        "failed to write to prog stdin: e"
    );
    assert_eq!(
        text(ProcessError::ExitedEarly),
        "prog process exited unexpectedly"
    );
    assert_eq!(
        text(ProcessError::MissingStdio {
            which: "stdin".to_string()
        }),
        "prog child is missing piped stdin after spawn"
    );
    assert_eq!(
        text(ProcessError::WatchdogTimeout { millis: 120_000 }),
        "prog watchdog fired after 120s of silence"
    );
    for millis in [0, 7, 500, 1_500, 2_050, 61_007] {
        assert_eq!(
            text(ProcessError::WatchdogTimeout { millis }),
            format!(
                "prog watchdog fired after {:?} of silence",
                std::time::Duration::from_millis(millis)
            )
        );
    }
    assert_eq!(
        text(ProcessError::Serialize("e".to_string())),
        "failed to serialize stdin payload: e"
    );
    assert_eq!(
        text(ProcessError::TurnInProgress),
        "turn already in progress for this session"
    );
}

#[test]
fn sessions_are_reused_evicted_and_capped() {
    let mut config = SessionManagerConfig::for_program("prog");
    assert_eq!(config.max_sessions, 64);
    config.max_sessions = 2;
    config.process.session_ttl = 100;
    let mut m = SessionManager::new(config);
    for (id, at) in [("a", 10), ("b", 20)] {
        let plan = m.plan_session(id, at);
        assert!(!plan.reuse && plan.victim.is_none() && plan.idle.is_empty());
        m.touch(id, at);
    }
    assert!(m.plan_session("a", 30).reuse);
    m.touch("a", 30);
    // At the cap the least recently used session makes room.
    let plan = m.plan_session("c", 40);
    assert_eq!(plan.victim.as_deref(), Some("b"));
    m.touch("c", 40);
    // A session is idle once it was not used for longer than its time.
    let plan = m.plan_session("c", 130);
    assert!(plan.reuse && plan.idle.is_empty());
    let plan = m.plan_session("c", 131);
    assert!(plan.reuse);
    assert_eq!(plan.idle, vec!["a"]);
    assert_eq!(m.shutdown_all(), vec!["c"]);
    assert!(m.shutdown_all().is_empty());
}

#[test]
fn bridge_serves_messages_and_health() {
    assert_eq!(bridge_route("GET", "/healthz"), BridgeRoute::Health);
    assert_eq!(bridge_route("POST", "/v1/messages"), BridgeRoute::Messages);
    assert_eq!(bridge_route("GET", "/v1/messages"), BridgeRoute::NotFound);
    assert_eq!(format_sse("ping", "{}"), "event: ping\ndata: {}\n\n");
    assert_eq!(StreamEventKind::MessageStart.as_str(), "message_start");
}

#[test]
fn failures_blame_client_or_child() {
    let e = |s: &str| s.to_string();
    for (failure, status, text) in [
        (BridgeFailure::BodyUnreadable, 400, "failed to read body"),
        (
            BridgeFailure::InvalidRequest { error: e("x") },
            400,
            "invalid Anthropic MessagesRequest: x",
        ),
        (
            BridgeFailure::SpawnFailed { error: e("x") },
            502,
            "failed to spawn cli: x",
        ),
        (
            BridgeFailure::InvalidPayload { error: e("x") },
            400,
            "failed to build cli stdin payload: x",
        ),
        (
            BridgeFailure::TurnNotSent { error: e("x") },
            502,
            "failed to send user turn: x",
        ),
        (BridgeFailure::TurnFailed { error: e("x") }, 502, "x"),
    ] {
        assert_eq!(failure.status(), status);
        assert_eq!(failure.message("cli"), text);
    }
    assert!(wants_stream(Some(true)));
    assert!(!wants_stream(None));
}

#[test]
fn short_turns_get_a_message_start() {
    let mut frames = TurnFrames::new();
    let out = frames.on_event(
        CliEvent {
            translated: None,
            starts_message: false,
            result: Some(CliResult {
                is_error: true,
                result: None,
            }),
        },
        "cli",
    );
    assert_eq!(out.len(), 2);
    assert!(matches!(out[0], StreamFrame::SyntheticStart));
    match &out[1] {
        StreamFrame::Error { message } => assert_eq!(message, "cli returned an error"),
        other => panic!("unexpected frame {:?}", other),
    }
    assert!(frames.closed);

    let mut frames = TurnFrames::new();
    let out = frames.on_event(
        CliEvent {
            translated: Some((StreamEventKind::MessageStart, "{}".to_string())),
            starts_message: true,
            result: None,
        },
        "cli",
    );
    assert_eq!(out.len(), 1);
    assert!(frames.emitted_message_start && !frames.closed);
    let frame = frames.on_failure("boom".to_string());
    assert!(matches!(frame, StreamFrame::Error { message } if message == "boom"));
}

#[test]
fn a_finished_stream_holds_a_message_start() {
    let ping = || CliEvent {
        translated: Some((StreamEventKind::Ping, "{}".to_string())),
        starts_message: false,
        result: None,
    };
    let start = || CliEvent {
        translated: Some((StreamEventKind::MessageStart, "{}".to_string())),
        starts_message: true,
        result: None,
    };
    let done = || CliEvent {
        translated: None,
        starts_message: false,
        result: Some(CliResult {
            is_error: false,
            result: Some("hi".to_string()),
        }),
    };
    for events in [vec![ping(), done()], vec![ping(), start(), done()]] {
        let mut turn = TurnFrames::new();
        let mut sent = Vec::new();
        for ev in events {
            sent.extend(turn.on_event(ev, "cli"));
        }
        assert!(turn.closed);
        let starts = sent
            .iter()
            .filter(|f| {
                matches!(
                    f,
                    StreamFrame::SyntheticStart
                        | StreamFrame::Event {
                            kind: StreamEventKind::MessageStart,
                            ..
                        }
                )
            })
            .count();
        assert_eq!(starts, 1);
    }
}

#[test]
fn silence_kills_the_child() {
    assert!(TurnStep::WatchdogTimeout.kills_child());
    assert!(!TurnStep::ExitedEarly.kills_child());
    assert!(!TurnStep::Deliver.kills_child());
    let mut turn = TurnStream::new();
    let step = turn.step(TurnInput::Silence).unwrap();
    assert!(step.kills_child() && turn.done);
}
