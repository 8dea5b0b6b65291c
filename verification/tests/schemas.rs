//! The signal taxonomy.

use brightstaff::signals::schemas::{SignalGroup, SignalInstance, SignalLayer, SignalType};

#[test]
fn signal_type_strings_match_paper_taxonomy() {
    assert_eq!(
        SignalType::MisalignmentCorrection.as_str(),
        "interaction.misalignment.correction"
    );
    assert_eq!(
        SignalType::ExecutionFailureInvalidArgs.as_str(),
        "execution.failure.invalid_args"
    );
    assert_eq!(
        SignalType::EnvironmentExhaustionMalformed.as_str(),
        "environment.exhaustion.malformed_response"
    );
}

#[test]
fn signal_type_layer_and_category() {
    assert_eq!(
        SignalType::MisalignmentRephrase.layer(),
        SignalLayer::Interaction
    );
    assert_eq!(SignalType::MisalignmentRephrase.category(), "misalignment");
    assert_eq!(
        SignalType::ExecutionLoopsRetry.layer(),
        SignalLayer::Execution
    );
    assert_eq!(SignalType::ExecutionLoopsRetry.category(), "loops");
    assert_eq!(
        SignalType::EnvironmentExhaustionTimeout.layer(),
        SignalLayer::Environment
    );
    assert_eq!(
        SignalType::EnvironmentExhaustionTimeout.category(),
        "exhaustion"
    );
}

#[test]
fn signal_group_severity_buckets_match_python() {
    let mut g = SignalGroup::new("misalignment");
    assert_eq!(g.severity, 0);
    for n in 1..=2 {
        g.add_signal(SignalInstance::new(
            SignalType::MisalignmentCorrection,
            n,
            "x",
        ));
    }
    assert_eq!(g.severity, 1);
    for n in 3..=4 {
        g.add_signal(SignalInstance::new(
            SignalType::MisalignmentCorrection,
            n,
            "x",
        ));
    }
    assert_eq!(g.severity, 2);
    for n in 5..=6 {
        g.add_signal(SignalInstance::new(
            SignalType::MisalignmentCorrection,
            n,
            "x",
        ));
    }
    assert_eq!(g.severity, 3);
}

#[test]
fn identifiers_tell_signals_apart() {
    let all = [
        SignalType::ExecutionLoopsRetry,
        SignalType::ExecutionFailureBadQuery,
        SignalType::StagnationDragging,
        SignalType::SatisfactionGratitude,
    ];
    for (i, t) in all.iter().enumerate() {
        let parts: Vec<&str> = t.as_str().split('.').collect();
        assert_eq!(parts.len(), 3);
        assert_eq!((parts[0], parts[1]), (t.layer().as_str(), t.category()));
        assert!(!parts[2].is_empty());
        for u in &all[i + 1..] {
            assert_ne!(t.as_str(), u.as_str());
        }
    }
}
