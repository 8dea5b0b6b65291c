//! Exhaustion of the environment.

use brightstaff::signals::analyzer::ShareGptMessage;
use brightstaff::signals::environment::exhaustion::analyze_exhaustion;
use brightstaff::signals::schemas::SignalType;

fn obs(value: &str) -> ShareGptMessage<'_> {
    ShareGptMessage {
        from: "observation",
        value,
    }
}

#[test]
fn detects_rate_limit() {
    let g = analyze_exhaustion(&[obs("HTTP 429: too many requests, retry after 30s")]);
    assert!(g
        .signals
        .iter()
        .any(|s| matches!(s.signal_type, SignalType::EnvironmentExhaustionRateLimit)));
}

#[test]
fn detects_api_error() {
    let g = analyze_exhaustion(&[obs("503 service unavailable - try again later")]);
    assert!(g
        .signals
        .iter()
        .any(|s| matches!(s.signal_type, SignalType::EnvironmentExhaustionApiError)));
}

#[test]
fn detects_timeout() {
    let g = analyze_exhaustion(&[obs("Connection timed out after 30 seconds")]);
    assert!(g
        .signals
        .iter()
        .any(|s| matches!(s.signal_type, SignalType::EnvironmentExhaustionTimeout)));
}

#[test]
fn detects_network_failure() {
    let g = analyze_exhaustion(&[obs("ECONNREFUSED: connection refused by remote host")]);
    assert!(g
        .signals
        .iter()
        .any(|s| matches!(s.signal_type, SignalType::EnvironmentExhaustionNetwork)));
}

#[test]
fn detects_malformed_response() {
    let g = analyze_exhaustion(&[obs("Invalid JSON: unexpected token at position 42")]);
    assert!(g
        .signals
        .iter()
        .any(|s| matches!(s.signal_type, SignalType::EnvironmentExhaustionMalformed)));
}

#[test]
fn detects_context_overflow() {
    let g = analyze_exhaustion(&[obs("Maximum context length exceeded for this model")]);
    assert!(g.signals.iter().any(|s| matches!(
        s.signal_type,
        SignalType::EnvironmentExhaustionContextOverflow
    )));
}
