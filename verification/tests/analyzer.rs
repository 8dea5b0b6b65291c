//! Reports on whole conversations and their steps.

use brightstaff::chat::{Message, MessageContent, Role};
use brightstaff::signals::analyzer::{ShareGptMessage, SignalAnalyzer};
use brightstaff::signals::schemas::{InteractionQuality, SignalReport, SignalType};

fn user(t: &str) -> Message {
    Message {
        role: Role::User,
        content: Some(MessageContent::Text(t.to_string())),
        name: None,
        tool_calls: None,
        tool_call_id: None,
    }
}
fn assistant(t: &str) -> Message {
    Message {
        role: Role::Assistant,
        content: Some(MessageContent::Text(t.to_string())),
        name: None,
        tool_calls: None,
        tool_call_id: None,
    }
}

#[test]
fn report_quality_neutral_for_short_clean_chat() {
    let msgs = vec![
        user("Hello, can you help me with a question?"),
        assistant("Of course, what's your question?"),
        user("How does X work?"),
        assistant("X works by ..."),
    ];
    let r = SignalAnalyzer::default().analyze_openai(&msgs);
    assert!(matches!(
        r.overall_quality,
        InteractionQuality::Neutral | InteractionQuality::Good | InteractionQuality::Excellent
    ));
    assert!(r.summary.starts_with("Overall Quality:"));
}

#[test]
fn report_severe_when_user_escalates() {
    let msgs = vec![
        user("This isn't helpful at all"),
        assistant("I'm sorry, can you tell me more?"),
        user("Get me a human, this is useless"),
    ];
    let r = SignalAnalyzer::default().analyze_openai(&msgs);
    assert_eq!(r.overall_quality, InteractionQuality::Severe);
    assert!(r
        .interaction
        .disengagement
        .signals
        .iter()
        .any(|s| matches!(s.signal_type, SignalType::DisengagementEscalation)));
}

#[test]
fn report_excellent_when_user_satisfied() {
    let msgs = vec![
        user("Can you summarize this report?"),
        assistant("Here's a summary: ..."),
        user("That's perfect, exactly what I needed, you're awesome!"),
    ];
    let r = SignalAnalyzer::default().analyze_openai(&msgs);
    assert!(r.interaction.satisfaction.count > 0);
    assert!(matches!(
        r.overall_quality,
        InteractionQuality::Good | InteractionQuality::Excellent
    ));
}

#[test]
fn repro_gratitude_does_not_trigger_misalignment() {
    let msgs = vec![
        user("What is the weather in Istanbul?"),
        assistant("Istanbul is 14C and partly cloudy."),
        user("That worked, exactly what I needed. Thanks, that is perfect!"),
    ];
    let r = SignalAnalyzer::default().analyze_openai(&msgs);
    for s in &r.interaction.misalignment.signals {
        println!(
            "misalignment fired: type={:?} idx={} snippet={:?} meta={:?}",
            s.signal_type, s.message_index, s.snippet, s.metadata
        );
    }
    assert_eq!(
        r.interaction.misalignment.count, 0,
        "a pure gratitude message should not trigger repair/misalignment"
    );
    assert!(r.interaction.satisfaction.count > 0);
}

#[test]
fn summary_groups_signals_by_taxonomy() {
    // Even on a clean conversation the summary should expose the three
    // layer headers so the taxonomy is visible.
    let msgs = vec![
        user("Hello"),
        assistant("Hi! How can I help?"),
        user("What's 2 + 2?"),
        assistant("4"),
    ];
    let r = SignalAnalyzer::default().analyze_openai(&msgs);
    assert!(
        r.summary.contains("Interaction \u{2014}"),
        "missing Interaction header in: {}",
        r.summary
    );
    assert!(
        r.summary.contains("Execution \u{2014}"),
        "missing Execution header in: {}",
        r.summary
    );
    assert!(
        r.summary.contains("Environment \u{2014}"),
        "missing Environment header in: {}",
        r.summary
    );
    assert!(r.summary.contains("misalignment: 0"));
    assert!(r.summary.contains("loops: 0"));
    assert!(r.summary.contains("exhaustion: 0"));
}

#[test]
fn summary_includes_severity_when_signals_fire() {
    let msgs = vec![
        user("This isn't helpful at all"),
        assistant("I'm sorry, can you tell me more?"),
        user("Get me a human, this is useless"),
    ];
    let r = SignalAnalyzer::default().analyze_openai(&msgs);
    // Disengagement fires; should render with `(sev N)` and the
    // escalation-requested alert tail.
    assert!(
        r.summary.contains("disengagement:") && r.summary.contains("(sev "),
        "expected severity rendered for disengagement: {}",
        r.summary
    );
    assert!(
        r.summary.contains("Escalation requested:"),
        "expected escalation alert in: {}",
        r.summary
    );
}

#[test]
fn execution_failures_lower_quality() {
    let msgs = vec![ShareGptMessage {
        from: "human",
        value: "do the thing",
    }];
    let _ = msgs;
    // Build a synthetic ShareGPT input with multiple tool failures.
    let convo = vec![
        ShareGptMessage {
            from: "human",
            value: "create a user",
        },
        ShareGptMessage {
            from: "function_call",
            value: r#"{"name":"create_user","arguments":{"age":"twelve"}}"#,
        },
        ShareGptMessage {
            from: "observation",
            value: "Error: validation failed - expected integer got string",
        },
        ShareGptMessage {
            from: "function_call",
            value: r#"{"name":"create_user","arguments":{}}"#,
        },
        ShareGptMessage {
            from: "observation",
            value: "missing required field: name",
        },
    ];
    let r = SignalAnalyzer::default().analyze_sharegpt(&convo);
    assert!(r.execution.failure.count >= 1);
    assert!(r.quality_score < 50);
}

// Stepping through a conversation message by message must land on the same
// signal counts and overall quality as analyzing it at once.

fn signal_counts(report: &SignalReport) -> Vec<(&'static str, usize)> {
    let mut counts: Vec<(&'static str, usize)> = Vec::new();
    for s in report.iter_signals() {
        let name = s.signal_type.as_str();
        match counts.iter_mut().find(|c| c.0 == name) {
            Some(c) => c.1 += 1,
            None => counts.push((name, 1)),
        }
    }
    counts.sort();
    counts
}

fn step_through(messages: &[ShareGptMessage<'_>]) -> SignalReport {
    let analyzer = SignalAnalyzer::default();
    let mut prev: Option<SignalReport> = None;
    for i in 0..messages.len() {
        let (_, report) = analyzer.step(messages, i, prev.as_ref());
        prev = Some(report);
    }
    prev.expect("non-empty conversation")
}

fn assert_same_signal_counts(batch: &SignalReport, incremental: &SignalReport, case: &str) {
    assert_eq!(
        signal_counts(batch),
        signal_counts(incremental),
        "{case}: signal counts diverged between batch and incremental analysis"
    );
    assert_eq!(
        batch.overall_quality, incremental.overall_quality,
        "{case}: overall quality diverged"
    );
}

#[test]
fn incremental_matches_batch_for_misalignment() {
    let convo = vec![
        ShareGptMessage {
            from: "human",
            value: "Book me a flight to Paris for next Tuesday",
        },
        ShareGptMessage {
            from: "gpt",
            value: "Booking a flight to Paris for next Monday.",
        },
        ShareGptMessage {
            from: "human",
            value: "No, I meant Tuesday, not Monday",
        },
        ShareGptMessage {
            from: "gpt",
            value: "Apologies, booking for Tuesday instead.",
        },
    ];
    let batch = SignalAnalyzer::default().analyze_sharegpt(&convo);
    let incremental = step_through(&convo);
    assert_same_signal_counts(&batch, &incremental, "misalignment");
    assert!(batch.interaction.misalignment.count > 0);
}

#[test]
fn incremental_matches_batch_for_dragging() {
    let convo: Vec<ShareGptMessage<'_>> = (0..15)
        .flat_map(|_| {
            [
                ShareGptMessage {
                    from: "human",
                    value: "Can you try that again?",
                },
                ShareGptMessage {
                    from: "gpt",
                    value: "Sure, let me try again.",
                },
            ]
        })
        .collect();
    let batch = SignalAnalyzer::default().analyze_sharegpt(&convo);
    let incremental = step_through(&convo);
    assert_same_signal_counts(&batch, &incremental, "dragging");
    assert!(batch.turn_metrics.is_dragging);
}

#[test]
fn incremental_matches_batch_for_repetition() {
    let convo = vec![
        ShareGptMessage {
            from: "human",
            value: "This widget is broken and needs repair right now",
        },
        ShareGptMessage {
            from: "gpt",
            value: "Sorry to hear that. Let me look into it.",
        },
        ShareGptMessage {
            from: "human",
            value: "This widget is broken and needs repair right now",
        },
        ShareGptMessage {
            from: "gpt",
            value: "I understand, looking into the widget issue now.",
        },
    ];
    let batch = SignalAnalyzer::default().analyze_sharegpt(&convo);
    let incremental = step_through(&convo);
    assert_same_signal_counts(&batch, &incremental, "repetition");
    assert!(batch.interaction.stagnation.count > 0);
}

#[test]
fn incremental_matches_batch_for_disengagement() {
    let convo = vec![
        ShareGptMessage {
            from: "human",
            value: "This isn't helpful at all",
        },
        ShareGptMessage {
            from: "gpt",
            value: "I'm sorry, can you tell me more?",
        },
        ShareGptMessage {
            from: "human",
            value: "Get me a human, this is useless",
        },
    ];
    let batch = SignalAnalyzer::default().analyze_sharegpt(&convo);
    let incremental = step_through(&convo);
    assert_same_signal_counts(&batch, &incremental, "disengagement");
    assert_eq!(batch.overall_quality, InteractionQuality::Severe);
}

#[test]
fn incremental_matches_batch_for_satisfaction() {
    let convo = vec![
        ShareGptMessage {
            from: "human",
            value: "Can you summarize this report?",
        },
        ShareGptMessage {
            from: "gpt",
            value: "Here's a summary: ...",
        },
        ShareGptMessage {
            from: "human",
            value: "That's perfect, exactly what I needed, you're awesome!",
        },
    ];
    let batch = SignalAnalyzer::default().analyze_sharegpt(&convo);
    let incremental = step_through(&convo);
    assert_same_signal_counts(&batch, &incremental, "satisfaction");
    assert!(batch.interaction.satisfaction.count > 0);
}

#[test]
fn incremental_matches_batch_for_failure_and_loops() {
    let convo = vec![
        ShareGptMessage {
            from: "human",
            value: "create a user",
        },
        ShareGptMessage {
            from: "function_call",
            value: r#"{"name":"create_user","arguments":{"age":"twelve"}}"#,
        },
        ShareGptMessage {
            from: "observation",
            value: "Error: validation failed - expected integer got string",
        },
        ShareGptMessage {
            from: "function_call",
            value: r#"{"name":"create_user","arguments":{"age":"twelve"}}"#,
        },
        ShareGptMessage {
            from: "observation",
            value: "Error: validation failed - expected integer got string",
        },
        ShareGptMessage {
            from: "function_call",
            value: r#"{"name":"create_user","arguments":{"age":"twelve"}}"#,
        },
        ShareGptMessage {
            from: "observation",
            value: "Error: validation failed - expected integer got string",
        },
    ];
    let batch = SignalAnalyzer::default().analyze_sharegpt(&convo);
    let incremental = step_through(&convo);
    assert_same_signal_counts(&batch, &incremental, "failure_and_loops");
    assert!(batch.execution.failure.count > 0);
    assert!(batch.execution.loops.count > 0);
}

#[test]
fn incremental_matches_batch_for_exhaustion() {
    let convo = vec![
        ShareGptMessage {
            from: "human",
            value: "fetch the latest price",
        },
        ShareGptMessage {
            from: "function_call",
            value: r#"{"name":"get_price","arguments":{}}"#,
        },
        ShareGptMessage {
            from: "observation",
            value: "503 Service Unavailable: try again later",
        },
    ];
    let batch = SignalAnalyzer::default().analyze_sharegpt(&convo);
    let incremental = step_through(&convo);
    assert_same_signal_counts(&batch, &incremental, "exhaustion");
    assert!(batch.environment.exhaustion.count > 0);
}

#[test]
fn incremental_matches_batch_for_clean_conversation() {
    let convo = vec![
        ShareGptMessage {
            from: "human",
            value: "Hello, can you help me with a question?",
        },
        ShareGptMessage {
            from: "gpt",
            value: "Of course, what's your question?",
        },
        ShareGptMessage {
            from: "human",
            value: "How does X work?",
        },
        ShareGptMessage {
            from: "gpt",
            value: "X works by ...",
        },
    ];
    let batch = SignalAnalyzer::default().analyze_sharegpt(&convo);
    let incremental = step_through(&convo);
    assert_same_signal_counts(&batch, &incremental, "clean_conversation");
}

#[test]
fn get_message_reports_returns_one_entry_per_message() {
    let convo = vec![
        ShareGptMessage {
            from: "human",
            value: "Hello",
        },
        ShareGptMessage {
            from: "gpt",
            value: "Hi! How can I help?",
        },
        ShareGptMessage {
            from: "human",
            value: "That's perfect, thank you!",
        },
    ];
    let reports = SignalAnalyzer::default().get_message_reports(&convo);
    assert_eq!(reports.len(), convo.len());
    assert_eq!(reports[0].role, "human");
    assert_eq!(reports[2].label, "positive");
}

#[test]
fn analyze_step_single_message_matches_batch() {
    let convo = vec![ShareGptMessage {
        from: "human",
        value: "Hello there",
    }];
    let batch = SignalAnalyzer::default().analyze_sharegpt(&convo);
    let (_, incremental) = SignalAnalyzer::default().analyze_step(&convo, None);
    assert_same_signal_counts(&batch, &incremental, "single_message");
}

#[test]
fn reports_tell_which_signals_they_hold() {
    let convo = vec![
        ShareGptMessage {
            from: "function_call",
            value: r#"{"name":"create_user","arguments":{"age":"x"}}"#,
        },
        ShareGptMessage {
            from: "observation",
            value: "Error: validation failed - expected integer got string",
        },
    ];
    let r = SignalAnalyzer::default().analyze_sharegpt(&convo);
    assert!(r.has_signal_type(SignalType::ExecutionFailureInvalidArgs));
    assert!(!r.has_signal_type(SignalType::ExecutionLoopsRetry));
}

#[test]
fn growing_conversations_land_on_the_report_of_the_whole() {
    let convo = vec![
        ShareGptMessage {
            from: "human",
            value: "Book me a flight to Paris",
        },
        ShareGptMessage {
            from: "gpt",
            value: "Booking a flight to Rome.",
        },
        ShareGptMessage {
            from: "human",
            value: "No, that's wrong, I meant Paris",
        },
    ];
    let analyzer = SignalAnalyzer::default();
    let mut report: Option<SignalReport> = None;
    for k in 1..=convo.len() {
        let (_, next) = analyzer.analyze_step(&convo[..k], report.as_ref());
        report = Some(next);
    }
    let batch = analyzer.analyze_sharegpt(&convo);
    let grown = report.unwrap();
    assert_eq!(signal_counts(&grown), signal_counts(&batch));
    assert_eq!(grown.overall_quality, batch.overall_quality);
}
