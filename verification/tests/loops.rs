//! Loops of tool calls, found at once and step by step.

use brightstaff::signals::analyzer::ShareGptMessage;
use brightstaff::signals::execution::incremental::{analyze_loops_step, ToolCallState};
use brightstaff::signals::execution::loops::{analyze_loops, parse_tool_call};
use brightstaff::signals::schemas::{Metadata, SignalInstance, SignalType};
use rand::rngs::StdRng;
use rand::{Rng, SeedableRng};

fn fc(value: &str) -> ShareGptMessage<'_> {
    ShareGptMessage {
        from: "function_call",
        value,
    }
}

#[test]
fn detects_retry_loop() {
    let arg = r#"{"name":"check_status","arguments":{"id":"abc"}}"#;
    let msgs = vec![fc(arg), fc(arg), fc(arg), fc(arg)];
    let g = analyze_loops(&msgs);
    assert!(g
        .signals
        .iter()
        .any(|s| matches!(s.signal_type, SignalType::ExecutionLoopsRetry)));
}

#[test]
fn detects_parameter_drift() {
    let msgs = vec![
        fc(r#"{"name":"search","arguments":{"q":"a"}}"#),
        fc(r#"{"name":"search","arguments":{"q":"ab"}}"#),
        fc(r#"{"name":"search","arguments":{"q":"abc"}}"#),
        fc(r#"{"name":"search","arguments":{"q":"abcd"}}"#),
    ];
    let g = analyze_loops(&msgs);
    assert!(g
        .signals
        .iter()
        .any(|s| matches!(s.signal_type, SignalType::ExecutionLoopsParameterDrift)));
}

#[test]
fn detects_oscillation() {
    let a = r#"{"name":"toolA","arguments":{}}"#;
    let b = r#"{"name":"toolB","arguments":{}}"#;
    let msgs = vec![fc(a), fc(b), fc(a), fc(b), fc(a), fc(b)];
    let g = analyze_loops(&msgs);
    assert!(g
        .signals
        .iter()
        .any(|s| matches!(s.signal_type, SignalType::ExecutionLoopsOscillation)));
}

#[test]
fn no_signals_when_few_calls() {
    let msgs = vec![fc(r#"{"name":"only_once","arguments":{}}"#)];
    let g = analyze_loops(&msgs);
    assert!(g.signals.is_empty());
}

fn signal_key(s: &SignalInstance) -> (String, usize, String) {
    (
        s.signal_type.as_str().to_string(),
        s.message_index,
        format!("{:?}", s.metadata),
    )
}

/// Owned (from, value) rows so the fuzz driver can build arbitrary
/// randomized conversations without lifetime headaches.
fn random_conversation(
    rng: &mut StdRng,
    len: usize,
    tool_names: &[&str],
) -> Vec<(String, String)> {
    let mut out = Vec::with_capacity(len);
    for _ in 0..len {
        let kind = rng.random_range(0..10u32);
        if kind < 7 {
            let name = tool_names[rng.random_range(0..tool_names.len())];
            let arg_variant = rng.random_range(0..3u32);
            out.push((
                "function_call".to_string(),
                format!(
                    r#"{{"name":"{}","arguments":{{"v":{}}}}}"#,
                    name, arg_variant
                ),
            ));
        } else if kind < 8 {
            out.push(("observation".to_string(), "ok".to_string()));
        } else if kind < 9 {
            out.push(("human".to_string(), "hi".to_string()));
        } else {
            out.push(("gpt".to_string(), "hi".to_string()));
        }
    }
    out
}

/// Runs both the batch detector (rescanning the growing prefix every
/// step) and the incremental `ToolCallState` (one call per new message)
/// over the same conversation, asserting they agree at every prefix.
/// Returns `Ok(())` on full agreement, or `Err(mismatch_count)`.
fn compare_batch_vs_incremental(rows: &[(String, String)]) -> usize {
    let mut state = ToolCallState::default();
    let mut mismatches = 0;
    for i in 0..rows.len() {
        let msgs: Vec<ShareGptMessage<'_>> = rows[..=i]
            .iter()
            .map(|(from, value)| ShareGptMessage {
                from: from.as_str(),
                value: value.as_str(),
            })
            .collect();
        let batch = analyze_loops(&msgs);
        let step = analyze_loops_step(&mut state, i, &msgs[i]);
        let mut a: Vec<_> = step.signals.iter().map(signal_key).collect();
        let mut b: Vec<_> = batch.signals.iter().map(signal_key).collect();
        a.sort();
        b.sort();
        if a != b {
            mismatches += 1;
        }
    }
    mismatches
}

#[test]
fn incremental_matches_batch_for_retry() {
    let arg = r#"{"name":"check_status","arguments":{"id":"abc"}}"#;
    let rows: Vec<(String, String)> = vec![arg, arg, arg, arg]
        .into_iter()
        .map(|v| ("function_call".to_string(), v.to_string()))
        .collect();
    assert_eq!(compare_batch_vs_incremental(&rows), 0);
}

#[test]
fn incremental_matches_batch_for_parameter_drift() {
    let rows: Vec<(String, String)> = vec![
        r#"{"name":"search","arguments":{"q":"a"}}"#,
        r#"{"name":"search","arguments":{"q":"ab"}}"#,
        r#"{"name":"search","arguments":{"q":"abc"}}"#,
        r#"{"name":"search","arguments":{"q":"abcd"}}"#,
    ]
    .into_iter()
    .map(|v| ("function_call".to_string(), v.to_string()))
    .collect();
    assert_eq!(compare_batch_vs_incremental(&rows), 0);
}

#[test]
fn incremental_matches_batch_for_retry_then_drift_in_same_run() {
    // Same tool throughout: A,A,A (retry) then B,C,D (drift, args all
    // distinct) — exercises closing an identical-args sub-run mid-run
    // without closing the whole same-tool-name run.
    let rows: Vec<(String, String)> = vec!["a", "a", "a", "b", "c", "d"]
        .into_iter()
        .map(|v| {
            (
                "function_call".to_string(),
                format!(r#"{{"name":"search","arguments":{{"q":"{}"}}}}"#, v),
            )
        })
        .collect();
    assert_eq!(compare_batch_vs_incremental(&rows), 0);
}

#[test]
fn incremental_matches_batch_for_oscillation() {
    let rows: Vec<(String, String)> =
        vec!["toolA", "toolB", "toolA", "toolB", "toolA", "toolB"]
            .into_iter()
            .map(|name| {
                (
                    "function_call".to_string(),
                    format!(r#"{{"name":"{}","arguments":{{}}}}"#, name),
                )
            })
            .collect();
    assert_eq!(compare_batch_vs_incremental(&rows), 0);
}

#[test]
fn incremental_matches_batch_with_interspersed_non_call_messages() {
    let rows: Vec<(String, String)> = vec![
        ("human".to_string(), "hi".to_string()),
        (
            "function_call".to_string(),
            r#"{"name":"x","arguments":{"a":1}}"#.to_string(),
        ),
        ("observation".to_string(), "ok".to_string()),
        (
            "function_call".to_string(),
            r#"{"name":"x","arguments":{"a":1}}"#.to_string(),
        ),
        ("observation".to_string(), "ok".to_string()),
        (
            "function_call".to_string(),
            r#"{"name":"x","arguments":{"a":1}}"#.to_string(),
        ),
        ("gpt".to_string(), "done".to_string()),
    ];
    assert_eq!(compare_batch_vs_incremental(&rows), 0);
}

/// Randomized comparison of the two detectors. Oscillation is a best-effort
/// approximation, so adversarial multi-period patterns could differ; over a
/// small tool vocabulary (2-3 distinct names, the realistic "agent oscillating
/// between tools" shape) none does.
#[test]
fn fuzz_step_matches_batch_for_loops() {
    let mut total_mismatches = 0usize;
    for seed in 0..200u64 {
        let mut rng = StdRng::seed_from_u64(seed);
        let tool_names: &[&str] = if seed % 2 == 0 {
            &["toolA", "toolB"]
        } else {
            &["toolA", "toolB", "toolC"]
        };
        let rows = random_conversation(&mut rng, 40, tool_names);
        total_mismatches += compare_batch_vs_incremental(&rows);
    }
    assert_eq!(
        total_mismatches, 0,
        "incremental loop detection diverged from the batch detector on {} prefixes",
        total_mismatches
    );
}

#[test]
fn reported_oscillations_are_those_of_the_calls() {
    let names = ["x", "a", "b", "c", "a", "b", "c", "a", "b", "c", "a"];
    let texts: Vec<String> = names
        .iter()
        .map(|n| format!("{{\"name\":\"{n}\",\"arguments\":{{}}}}"))
        .collect();
    let msgs: Vec<ShareGptMessage<'_>> = texts.iter().map(|t| fc(t)).collect();
    let g = analyze_loops(&msgs);
    assert_eq!(g.signals.len(), 1);
    match &g.signals[0].metadata {
        Metadata::Oscillation {
            tools,
            start_index,
            end_index,
            cycle_count,
        } => {
            assert_eq!(tools, &["a", "b", "c"]);
            assert_eq!((*start_index, *end_index, *cycle_count), (1, 9, 3));
            for (i, name) in names[*start_index..=*end_index].iter().enumerate() {
                assert_eq!(*name, tools[i % tools.len()]);
            }
        }
        other => panic!("unexpected {other:?}"),
    }
}

#[test]
fn parsed_calls_hold_their_arguments() {
    let c = parse_tool_call(7, &fc(r#"{"name":"f","arguments":{"b":1,"a":2}}"#)).unwrap();
    assert_eq!((c.index, c.name.as_str()), (7, "f"));
    assert_eq!(c.args, r#"{"a":2,"b":1}"#);
    let dict = c.args_dict.as_ref().unwrap();
    assert_eq!(dict.len(), 2);
    assert_eq!(dict["a"], serde_json::Value::from(2));
    assert_eq!(dict.keys().collect::<Vec<_>>(), ["a", "b"]);
    let said = ShareGptMessage {
        from: "gpt",
        value: r#"{"name":"f","arguments":{"b":1,"a":2}}"#,
    };
    assert!(parse_tool_call(7, &said).is_none());
    let text = parse_tool_call(0, &fc(r#"{"name":"f","args":"plain"}"#)).unwrap();
    assert_eq!(text.args, "plain");
    assert!(text.args_dict.is_none());
    let written = parse_tool_call(0, &fc(r#"f( {"b":1,"a":2} )"#)).unwrap();
    assert_eq!(written.args, r#"{"a":2,"b":1}"#);
    assert!(written.args_equal(&c));
}

#[test]
fn arguments_are_equal_by_value_in_a_scan_and_by_text_in_steps() {
    let plus = r#"{"name":"f","arguments":{"x":0.0}}"#;
    let minus = r#"{"name":"f","arguments":{"x":-0.0}}"#;
    let a = parse_tool_call(0, &fc(plus)).unwrap();
    let b = parse_tool_call(1, &fc(minus)).unwrap();
    assert!(a.args_equal(&b));
    assert_ne!(a.args, b.args);
    let msgs = vec![fc(plus), fc(minus), fc(plus)];
    let scanned = analyze_loops(&msgs);
    assert_eq!(scanned.signals.len(), 1);
    assert_eq!(
        scanned.signals[0].signal_type,
        SignalType::ExecutionLoopsRetry
    );
    let mut state = ToolCallState::default();
    let mut stepped = analyze_loops_step(&mut state, 0, &msgs[0]);
    for (i, m) in msgs.iter().enumerate().skip(1) {
        stepped = analyze_loops_step(&mut state, i, m);
    }
    assert_eq!(
        stepped.signals[0].signal_type,
        SignalType::ExecutionLoopsParameterDrift
    );
}
