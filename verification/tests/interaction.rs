//! Signals in what users say.

use brightstaff::natural::Ratio;
use brightstaff::signals::interaction::disengagement::analyze_disengagement;
use brightstaff::signals::interaction::misalignment::{analyze_misalignment, is_similar_rephrase};
use brightstaff::signals::interaction::satisfaction::analyze_satisfaction;
use brightstaff::signals::interaction::stagnation::{
    analyze_dragging, analyze_repetition, analyze_stagnation, ShareGptMsg,
};
use brightstaff::signals::schemas::SignalType;
use brightstaff::signals::text_processing::NormalizedMessage;

fn ratio(num: u128, den: u128) -> Ratio {
    Ratio::new(num, den)
}

fn nm(s: &str) -> NormalizedMessage {
    NormalizedMessage::from_text(s, 2000)
}

#[test]
fn detects_human_escalation_request() {
    let msgs = vec![(
        0usize,
        "human",
        nm("This is taking forever, get me a human"),
    )];
    let g = analyze_disengagement(&msgs, ratio(65, 100), ratio(6, 10));
    assert!(g
        .signals
        .iter()
        .any(|s| matches!(s.signal_type, SignalType::DisengagementEscalation)));
}

#[test]
fn detects_quit_intent() {
    let msgs = vec![(0usize, "human", nm("Forget it, I give up"))];
    let g = analyze_disengagement(&msgs, ratio(65, 100), ratio(6, 10));
    assert!(g
        .signals
        .iter()
        .any(|s| matches!(s.signal_type, SignalType::DisengagementQuit)));
}

#[test]
fn detects_negative_stance_complaint() {
    let msgs = vec![(0usize, "human", nm("This is useless"))];
    let g = analyze_disengagement(&msgs, ratio(65, 100), ratio(6, 10));
    assert!(g
        .signals
        .iter()
        .any(|s| matches!(s.signal_type, SignalType::DisengagementNegativeStance)));
}

#[test]
fn detects_excessive_punctuation_as_negative_stance() {
    let msgs = vec![(0usize, "human", nm("WHY isn't this working???"))];
    let g = analyze_disengagement(&msgs, ratio(65, 100), ratio(6, 10));
    assert!(g
        .signals
        .iter()
        .any(|s| matches!(s.signal_type, SignalType::DisengagementNegativeStance)));
}

#[test]
fn positive_excitement_is_not_disengagement() {
    let msgs = vec![(0usize, "human", nm("Yes!! That's perfect!!!"))];
    let g = analyze_disengagement(&msgs, ratio(65, 100), ratio(6, 10));
    assert!(g
        .signals
        .iter()
        .all(|s| !matches!(s.signal_type, SignalType::DisengagementNegativeStance)));
}

fn make(items: &[(&'static str, &str)]) -> Vec<(usize, &'static str, NormalizedMessage)> {
    items
        .iter()
        .enumerate()
        .map(|(i, (role, text))| (i, *role, nm(text)))
        .collect()
}

#[test]
fn detects_explicit_correction() {
    let msgs = make(&[
        ("human", "Show me my orders"),
        ("gpt", "Sure, here are your invoices"),
        ("human", "No, I meant my recent orders"),
    ]);
    let g = analyze_misalignment(&msgs, ratio(65, 100), ratio(6, 10));
    assert!(g
        .signals
        .iter()
        .any(|s| matches!(s.signal_type, SignalType::MisalignmentCorrection)));
}

#[test]
fn detects_rephrase_marker() {
    let msgs = make(&[
        ("human", "Show me X"),
        ("gpt", "Sure"),
        ("human", "Let me rephrase: I want X grouped by date"),
    ]);
    let g = analyze_misalignment(&msgs, ratio(65, 100), ratio(6, 10));
    assert!(g
        .signals
        .iter()
        .any(|s| matches!(s.signal_type, SignalType::MisalignmentRephrase)));
}

#[test]
fn detects_clarification_request() {
    let msgs = make(&[
        ("human", "Run the report"),
        ("gpt", "Foobar quux baz."),
        ("human", "I don't understand what you mean"),
    ]);
    let g = analyze_misalignment(&msgs, ratio(65, 100), ratio(6, 10));
    assert!(g
        .signals
        .iter()
        .any(|s| matches!(s.signal_type, SignalType::MisalignmentClarification)));
}

#[test]
fn confirmation_is_not_a_rephrase() {
    let m1 = nm("Yes, that's correct, please proceed with the order");
    let m2 = nm("please proceed with the order for the same product");
    assert!(!is_similar_rephrase(&m1, &m2, ratio(75, 100), 4, ratio(5, 10)));
}

#[test]
fn detects_gratitude() {
    let msgs = vec![(0usize, "human", nm("That's perfect, appreciate it!"))];
    let g = analyze_satisfaction(&msgs, ratio(65, 100), ratio(6, 10));
    assert!(g
        .signals
        .iter()
        .any(|s| matches!(s.signal_type, SignalType::SatisfactionGratitude)));
}

#[test]
fn detects_confirmation() {
    let msgs = vec![(0usize, "human", nm("That works for me, thanks"))];
    let g = analyze_satisfaction(&msgs, ratio(65, 100), ratio(6, 10));
    assert!(g
        .signals
        .iter()
        .any(|s| matches!(s.signal_type, SignalType::SatisfactionConfirmation)));
}

#[test]
fn detects_success() {
    let msgs = vec![(0usize, "human", nm("Great, it worked!"))];
    let g = analyze_satisfaction(&msgs, ratio(65, 100), ratio(6, 10));
    assert!(g
        .signals
        .iter()
        .any(|s| matches!(s.signal_type, SignalType::SatisfactionSuccess)));
}

#[test]
fn dragging_after_many_user_turns() {
    let msgs: Vec<_> = (0..15)
        .flat_map(|_| [ShareGptMsg { from: "human" }, ShareGptMsg { from: "gpt" }])
        .collect();
    let (g, m) = analyze_dragging(&msgs, 5, ratio(5, 10));
    assert!(m.is_dragging);
    assert!(g
        .signals
        .iter()
        .any(|s| matches!(s.signal_type, SignalType::StagnationDragging)));
}

#[test]
fn no_dragging_below_baseline() {
    let msgs = vec![
        ShareGptMsg { from: "human" },
        ShareGptMsg { from: "gpt" },
        ShareGptMsg { from: "human" },
        ShareGptMsg { from: "gpt" },
    ];
    let (g, m) = analyze_dragging(&msgs, 5, ratio(5, 10));
    assert!(!m.is_dragging);
    assert!(g.signals.is_empty());
}

#[test]
fn detects_exact_repetition_in_user_messages() {
    let n = vec![
        (
            0usize,
            "human",
            nm("This widget is broken and needs repair right now"),
        ),
        (1, "gpt", nm("Sorry to hear that. Let me look into it.")),
        (
            2,
            "human",
            nm("This widget is broken and needs repair right now"),
        ),
    ];
    let g = analyze_repetition(&n, 2, ratio(95, 100), ratio(85, 100));
    assert!(g
        .signals
        .iter()
        .any(|s| matches!(s.signal_type, SignalType::StagnationRepetition)));
}

#[test]
fn stagnation_is_dragging_and_repetition() {
    let rows: Vec<_> = (0..15)
        .flat_map(|_| [ShareGptMsg { from: "human" }, ShareGptMsg { from: "gpt" }])
        .collect();
    let text = "I can help you with that specific request today";
    let said = vec![(1usize, "gpt", nm(text)), (3usize, "gpt", nm(text))];
    let (g, m) = analyze_stagnation(&rows, &said, 5);
    assert!(m.is_dragging);
    let (dragging, _) = analyze_dragging(&rows, 5, ratio(5, 10));
    let repetition = analyze_repetition(&said, 2, ratio(95, 100), ratio(85, 100));
    assert_eq!(
        g.signals.len(),
        dragging.signals.len() + repetition.signals.len()
    );
    assert!(!repetition.signals.is_empty());
}
