//! Failures of tool calls.

use brightstaff::signals::analyzer::ShareGptMessage;
use brightstaff::signals::execution::failure::analyze_failure;
use brightstaff::signals::schemas::SignalType;

fn fc(value: &str) -> ShareGptMessage<'_> {
    ShareGptMessage {
        from: "function_call",
        value,
    }
}
fn obs(value: &str) -> ShareGptMessage<'_> {
    ShareGptMessage {
        from: "observation",
        value,
    }
}

#[test]
fn detects_invalid_args() {
    let msgs = vec![
        fc(r#"{"name":"create_user","arguments":{"age":"twelve"}}"#),
        obs("Error: validation failed - expected integer got string for field age"),
    ];
    let g = analyze_failure(&msgs);
    assert!(g
        .signals
        .iter()
        .any(|s| matches!(s.signal_type, SignalType::ExecutionFailureInvalidArgs)));
}

#[test]
fn detects_tool_not_found() {
    let msgs = vec![
        fc(r#"{"name":"send_thought","arguments":{}}"#),
        obs("Error: unknown function 'send_thought'"),
    ];
    let g = analyze_failure(&msgs);
    assert!(g
        .signals
        .iter()
        .any(|s| matches!(s.signal_type, SignalType::ExecutionFailureToolNotFound)));
}

#[test]
fn detects_auth_misuse() {
    let msgs = vec![
        fc(r#"{"name":"get_secret","arguments":{}}"#),
        obs("HTTP 401 Unauthorized"),
    ];
    let g = analyze_failure(&msgs);
    assert!(g
        .signals
        .iter()
        .any(|s| matches!(s.signal_type, SignalType::ExecutionFailureAuthMisuse)));
}

#[test]
fn detects_state_error() {
    let msgs = vec![
        fc(r#"{"name":"commit_tx","arguments":{}}"#),
        obs("must call begin_tx first"),
    ];
    let g = analyze_failure(&msgs);
    assert!(g
        .signals
        .iter()
        .any(|s| matches!(s.signal_type, SignalType::ExecutionFailureStateError)));
}
