//! Signal events.

use brightstaff::natural::Ratio;
use brightstaff::signals::event::{SignalEvent, SignalEvidence, SignalSubtype, SignalType};

#[test]
fn subtype_layer_mapping() {
    assert_eq!(SignalSubtype::Repair.layer(), SignalType::Interaction);
    assert_eq!(SignalSubtype::Frustration.layer(), SignalType::Interaction);
    assert_eq!(SignalSubtype::Repetition.layer(), SignalType::Interaction);
    assert_eq!(
        SignalSubtype::PositiveFeedback.layer(),
        SignalType::Interaction
    );
    assert_eq!(SignalSubtype::Escalation.layer(), SignalType::Interaction);
    assert_eq!(SignalSubtype::ToolFailure.layer(), SignalType::Execution);
    assert_eq!(SignalSubtype::ExecutionLoop.layer(), SignalType::Execution);
    assert_eq!(SignalSubtype::Exhaustion.layer(), SignalType::Environment);
}

#[test]
fn new_event_sets_layer_from_subtype() {
    let event = SignalEvent::new(
        SignalSubtype::Frustration,
        7,
        SignalEvidence::Frustration {
            indicator_type: "all_caps".to_string(),
            snippet: "WHY ISN'T THIS WORKING".to_string(),
        },
    );
    assert_eq!(event.signal_type, SignalType::Interaction);
    assert_eq!(event.signal_subtype, SignalSubtype::Frustration);
    assert_eq!(event.source_message_idx, 7);
}

#[test]
fn otel_event_name_shape() {
    let event = SignalEvent::new(
        SignalSubtype::Frustration,
        7,
        SignalEvidence::Frustration {
            indicator_type: "all_caps".to_string(),
            snippet: "WHY".to_string(),
        },
    );
    assert_eq!(event.otel_event_name(), "signal.interaction.frustration");

    let tool_failure_event = SignalEvent {
        event_id: "01ARZ3NDEKTSV4RRFFQ69G5FAV".to_string(),
        signal_type: SignalType::Execution,
        signal_subtype: SignalSubtype::ToolFailure,
        source_message_idx: 3,
        timestamp_ms: 0,
        // A stand-in, purely to exercise name formatting.
        evidence: SignalEvidence::Frustration {
            indicator_type: "all_caps".to_string(),
            snippet: String::new(),
        },
    };
    assert_eq!(
        tool_failure_event.otel_event_name(),
        "signal.execution.tool_failure"
    );
}

#[test]
fn to_otel_attributes_includes_base_keys() {
    let event = SignalEvent::new(
        SignalSubtype::Frustration,
        7,
        SignalEvidence::Frustration {
            indicator_type: "all_caps".to_string(),
            snippet: "WHY".to_string(),
        },
    );
    let attrs = event.to_otel_attributes();
    let keys: std::collections::HashSet<String> =
        attrs.iter().map(|kv| kv.key.to_string()).collect();
    for required in [
        "signal.event_id",
        "signal.type",
        "signal.subtype",
        "signal.source_message_idx",
    ] {
        assert!(
            keys.contains(required),
            "missing required attribute {}",
            required
        );
    }
}

#[test]
fn to_otel_attributes_includes_evidence_fields_per_variant() {
    let repair = SignalEvent::new(
        SignalSubtype::Repair,
        2,
        SignalEvidence::Repair {
            snippet: "that's not what i meant".to_string(),
            similar_to_prev_user_turn: false,
        },
    );
    let repetition = SignalEvent::new(
        SignalSubtype::Repetition,
        4,
        SignalEvidence::Repetition {
            other_message_idx: 2,
            similarity: Ratio::new(91, 100),
            repetition_type: "exact".to_string(),
        },
    );
    let escalation = SignalEvent::new(
        SignalSubtype::Escalation,
        5,
        SignalEvidence::Escalation {
            escalation_type: "human_agent".to_string(),
            snippet: "speak to a human".to_string(),
        },
    );

    let keyset = |e: &SignalEvent| -> std::collections::HashSet<String> {
        e.to_otel_attributes()
            .iter()
            .map(|kv| kv.key.to_string())
            .collect()
    };

    assert!(keyset(&repair).contains("signal.evidence.snippet"));
    assert!(keyset(&repair).contains("signal.evidence.similar_to_prev_user_turn"));

    let rep_keys = keyset(&repetition);
    assert!(rep_keys.contains("signal.evidence.other_message_idx"));
    assert!(rep_keys.contains("signal.evidence.similarity"));
    assert!(rep_keys.contains("signal.evidence.repetition_type"));

    let esc_keys = keyset(&escalation);
    assert!(esc_keys.contains("signal.evidence.escalation_type"));
    assert!(esc_keys.contains("signal.evidence.snippet"));
}

#[test]
fn events_have_ids_and_times_of_their_own() {
    let make = || {
        SignalEvent::new(
            SignalSubtype::Repetition,
            12,
            SignalEvidence::Repetition {
                other_message_idx: 8,
                similarity: Ratio::new(91, 100),
                repetition_type: "exact".to_string(),
            },
        )
    };
    let a = make();
    let b = make();
    assert_eq!(a.event_id.len(), 26);
    assert_ne!(a.event_id, b.event_id);
    assert!(a.timestamp_ms > 1_600_000_000_000);
    assert!(b.timestamp_ms >= a.timestamp_ms);
}
