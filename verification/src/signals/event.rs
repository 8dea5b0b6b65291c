//! Signal event atoms — the foundational representation of detections.
//!
//! A `SignalEvent` is a single detected indicator in a conversation (one
//! frustration indicator, one repetition instance, etc.), emitted so that
//! consumers can drill from an aggregate counter to the specific message or
//! tool call that triggered it.

use crate::natural::Ratio;
use crate::text::{fixed_point, rounded_text};
use vstd::prelude::*;
use vstd::string::StringExecFns;

verus! {

/// Top-level signal layer of the taxonomy.
#[derive(Debug, Clone, Copy, PartialEq, Eq, Hash, Structural)]
pub enum SignalType {
    Interaction,
    Execution,
    Environment,
}

impl SignalType {
    /// The layer's name.
    pub open spec fn name(self) -> Seq<char> {
        match self {
            SignalType::Interaction => "interaction"@,
            SignalType::Execution => "execution"@,
            SignalType::Environment => "environment"@,
        }
    }

    /// The layer's name.
    pub fn as_str(&self) -> (r: &'static str)
        ensures
            r@ == self.name(),
    {
        match self {
            SignalType::Interaction => "interaction",
            SignalType::Execution => "execution",
            SignalType::Environment => "environment",
        }
    }
}

/// Specific signal subtype. Each subtype belongs to exactly one `SignalType`
/// layer (see [`SignalSubtype::layer`]).
#[derive(Debug, Clone, Copy, PartialEq, Eq, Hash, Structural)]
pub enum SignalSubtype {
    // Interaction layer.
    Repair,
    Frustration,
    Repetition,
    PositiveFeedback,
    Escalation,
    // Execution layer.
    ToolFailure,
    ExecutionLoop,
    // Environment layer.
    Exhaustion,
}

impl SignalSubtype {
    /// The subtype's name.
    pub open spec fn name(self) -> Seq<char> {
        match self {
            SignalSubtype::Repair => "repair"@,
            SignalSubtype::Frustration => "frustration"@,
            SignalSubtype::Repetition => "repetition"@,
            SignalSubtype::PositiveFeedback => "positive_feedback"@,
            SignalSubtype::Escalation => "escalation"@,
            SignalSubtype::ToolFailure => "tool_failure"@,
            SignalSubtype::ExecutionLoop => "execution_loop"@,
            SignalSubtype::Exhaustion => "exhaustion"@,
        }
    }

    /// The layer of the subtype.
    pub open spec fn spec_layer(self) -> SignalType {
        match self {
            SignalSubtype::Repair
            | SignalSubtype::Frustration
            | SignalSubtype::Repetition
            | SignalSubtype::PositiveFeedback
            | SignalSubtype::Escalation => SignalType::Interaction,
            SignalSubtype::ToolFailure | SignalSubtype::ExecutionLoop => SignalType::Execution,
            SignalSubtype::Exhaustion => SignalType::Environment,
        }
    }

    /// The subtype's name.
    pub fn as_str(&self) -> (r: &'static str)
        ensures
            r@ == self.name(),
    {
        match self {
            SignalSubtype::Repair => "repair",
            SignalSubtype::Frustration => "frustration",
            SignalSubtype::Repetition => "repetition",
            SignalSubtype::PositiveFeedback => "positive_feedback",
            SignalSubtype::Escalation => "escalation",
            SignalSubtype::ToolFailure => "tool_failure",
            SignalSubtype::ExecutionLoop => "execution_loop",
            SignalSubtype::Exhaustion => "exhaustion",
        }
    }

    /// Returns the signal layer this subtype belongs to.
    pub fn layer(&self) -> (r: SignalType)
        ensures
            r == self.spec_layer(),
    {
        match self {
            SignalSubtype::Repair
            | SignalSubtype::Frustration
            | SignalSubtype::Repetition
            | SignalSubtype::PositiveFeedback
            | SignalSubtype::Escalation => SignalType::Interaction,
            SignalSubtype::ToolFailure | SignalSubtype::ExecutionLoop => SignalType::Execution,
            SignalSubtype::Exhaustion => SignalType::Environment,
        }
    }
}

/// Structured evidence payload. The indicator, escalation and repetition
/// types are given by name.
#[derive(Debug)]
pub enum SignalEvidence {
    Repair {
        snippet: String,
        /// True when the repair was detected by semantic rephrase of the
        /// previous user turn (rather than a lexical repair pattern).
        similar_to_prev_user_turn: bool,
    },
    Frustration { indicator_type: String, snippet: String },
    Repetition {
        /// Absolute index of the other message in the detected pair.
        other_message_idx: usize,
        similarity: Ratio,
        repetition_type: String,
    },
    PositiveFeedback { indicator_type: String, snippet: String },
    Escalation { escalation_type: String, snippet: String },
}

impl SignalEvidence {
    /// Whether a similarity in the evidence is a fraction: its denominator is
    /// not zero.
    pub open spec fn printable(self) -> bool {
        match self {
            SignalEvidence::Repetition { similarity, .. } => similarity.den > 0,
            _ => true,
        }
    }
}

/// The value of an attribute.
#[derive(Debug)]
pub enum AttributeValue {
    Text(String),
    Index(usize),
    Flag(bool),
}

/// What an attribute's value says.
pub enum ValueFacts {
    Text(Seq<char>),
    Index(nat),
    Flag(bool),
}

/// A named attribute of a span event.
#[derive(Debug)]
pub struct Attribute {
    pub key: &'static str,
    pub value: AttributeValue,
}

impl View for Attribute {
    type V = (Seq<char>, ValueFacts);

    open spec fn view(&self) -> (Seq<char>, ValueFacts) {
        (
            self.key@,
            match self.value {
                AttributeValue::Text(t) => ValueFacts::Text(t@),
                AttributeValue::Index(i) => ValueFacts::Index(i as nat),
                AttributeValue::Flag(b) => ValueFacts::Flag(b),
            },
        )
    }
}

/// What a sequence of attributes says.
pub open spec fn attributes_view(v: Seq<Attribute>) -> Seq<(Seq<char>, ValueFacts)> {
    Seq::new(v.len(), |i: int| v[i]@)
}

/// Single detected signal atom.
///
/// `source_message_idx` is an absolute index into the conversation the
/// analyzer was called with — stable across the analyzer's internal
/// truncation window.
#[derive(Debug)]
pub struct SignalEvent {
    pub event_id: String,
    pub signal_type: SignalType,
    pub signal_subtype: SignalSubtype,
    pub source_message_idx: usize,
    /// Milliseconds since the Unix epoch.
    pub timestamp_ms: i64,
    pub evidence: SignalEvidence,
}

/// `ulid::Ulid::new` written as text: a fresh identifier made of the time and
/// random bits, so nothing is claimed of it.
#[verifier::external_body]
fn fresh_event_id() -> (id: String) {
    ulid::Ulid::new().to_string()
}

/// `chrono::Utc::now` in milliseconds since the Unix epoch: the time, so
/// nothing is claimed of it.
#[verifier::external_body]
fn current_time_ms() -> (ms: i64) {
    chrono::Utc::now().timestamp_millis()
}

fn text_attribute(key: &'static str, value: &str) -> (r: Attribute)
    ensures
        r@ == (key@, ValueFacts::Text(value@)),
{
    Attribute { key, value: AttributeValue::Text(value.to_owned()) }
}

/// The attributes every event has.
pub open spec fn base_attributes(e: SignalEvent) -> Seq<(Seq<char>, ValueFacts)> {
    seq![
        ("signal.event_id"@, ValueFacts::Text(e.event_id@)),
        ("signal.type"@, ValueFacts::Text(e.signal_type.name())),
        ("signal.subtype"@, ValueFacts::Text(e.signal_subtype.name())),
        ("signal.source_message_idx"@, ValueFacts::Index(e.source_message_idx as nat)),
    ]
}

/// The attributes of the evidence.
pub open spec fn evidence_attributes(e: SignalEvidence) -> Seq<(Seq<char>, ValueFacts)> {
    match e {
        SignalEvidence::Repair { snippet, similar_to_prev_user_turn } => seq![
            ("signal.evidence.snippet"@, ValueFacts::Text(snippet@)),
            (
                "signal.evidence.similar_to_prev_user_turn"@,
                ValueFacts::Flag(similar_to_prev_user_turn),
            ),
        ],
        SignalEvidence::Frustration { indicator_type, snippet } => seq![
            ("signal.evidence.indicator_type"@, ValueFacts::Text(indicator_type@)),
            ("signal.evidence.snippet"@, ValueFacts::Text(snippet@)),
        ],
        SignalEvidence::Repetition { other_message_idx, similarity, repetition_type } => seq![
            (
                "signal.evidence.other_message_idx"@,
                ValueFacts::Index(other_message_idx as nat),
            ),
            (
                "signal.evidence.similarity"@,
                ValueFacts::Text(rounded_text(similarity.num as nat, similarity.den as nat, 3)),
            ),
            ("signal.evidence.repetition_type"@, ValueFacts::Text(repetition_type@)),
        ],
        SignalEvidence::PositiveFeedback { indicator_type, snippet } => seq![
            ("signal.evidence.indicator_type"@, ValueFacts::Text(indicator_type@)),
            ("signal.evidence.snippet"@, ValueFacts::Text(snippet@)),
        ],
        SignalEvidence::Escalation { escalation_type, snippet } => seq![
            ("signal.evidence.escalation_type"@, ValueFacts::Text(escalation_type@)),
            ("signal.evidence.snippet"@, ValueFacts::Text(snippet@)),
        ],
    }
}

/// All attributes of an event.
pub open spec fn event_attributes(e: SignalEvent) -> Seq<(Seq<char>, ValueFacts)> {
    base_attributes(e) + evidence_attributes(e.evidence)
}

/// The name of an event.
pub open spec fn event_name(layer: SignalType, subtype: SignalSubtype) -> Seq<char> {
    "signal."@ + layer.name() + "."@ + subtype.name()
}

impl SignalEvent {
    /// A new event with a fresh identifier and the current time; its layer is
    /// that of the subtype.
    pub fn new(
        signal_subtype: SignalSubtype,
        source_message_idx: usize,
        evidence: SignalEvidence,
    ) -> (r: Self)
        ensures
            r.signal_type == signal_subtype.spec_layer(),
            r.signal_subtype == signal_subtype,
            r.source_message_idx == source_message_idx,
            r.evidence == evidence,
    {
        SignalEvent::identified(
            fresh_event_id(),
            current_time_ms(),
            signal_subtype,
            source_message_idx,
            evidence,
        )
    }

    /// An event with a given identifier and time.
    pub fn identified(
        event_id: String,
        timestamp_ms: i64,
        signal_subtype: SignalSubtype,
        source_message_idx: usize,
        evidence: SignalEvidence,
    ) -> (r: Self)
        ensures
            r == (SignalEvent {
                event_id,
                signal_type: signal_subtype.spec_layer(),
                signal_subtype,
                source_message_idx,
                timestamp_ms,
                evidence,
            }),
    {
        SignalEvent {
            event_id,
            signal_type: signal_subtype.layer(),
            signal_subtype,
            source_message_idx,
            timestamp_ms,
            evidence,
        }
    }

    /// Canonical span-event name for this signal.
    ///
    /// Shape: `signal.{type}.{subtype}` (e.g. `signal.interaction.frustration`).
    pub fn otel_event_name(&self) -> (r: String)
        ensures
            r@ == event_name(self.signal_type, self.signal_subtype),
    {
        let mut r: String = "signal.".to_owned();
        r.append(self.signal_type.as_str());
        r.append(".");
        r.append(self.signal_subtype.as_str());
        r
    }

    /// Flatten this event into key-value attributes suitable for a span event.
    pub fn to_otel_attributes(&self) -> (r: Vec<Attribute>)
        requires
            self.evidence.printable(),
        ensures
            attributes_view(r@) == event_attributes(*self),
    {
        let mut attrs: Vec<Attribute> = Vec::new();
        attrs.push(text_attribute("signal.event_id", self.event_id.as_str()));
        attrs.push(text_attribute("signal.type", self.signal_type.as_str()));
        attrs.push(text_attribute("signal.subtype", self.signal_subtype.as_str()));
        attrs.push(
            Attribute {
                key: "signal.source_message_idx",
                value: AttributeValue::Index(self.source_message_idx),
            },
        );
        match &self.evidence {
            SignalEvidence::Repair { snippet, similar_to_prev_user_turn } => {
                attrs.push(text_attribute("signal.evidence.snippet", snippet.as_str()));
                attrs.push(
                    Attribute {
                        key: "signal.evidence.similar_to_prev_user_turn",
                        value: AttributeValue::Flag(*similar_to_prev_user_turn),
                    },
                );
            },
            SignalEvidence::Frustration { indicator_type, snippet } => {
                attrs.push(
                    text_attribute("signal.evidence.indicator_type", indicator_type.as_str()),
                );
                attrs.push(text_attribute("signal.evidence.snippet", snippet.as_str()));
            },
            SignalEvidence::Repetition { other_message_idx, similarity, repetition_type } => {
                attrs.push(
                    Attribute {
                        key: "signal.evidence.other_message_idx",
                        value: AttributeValue::Index(*other_message_idx),
                    },
                );
                let text: String = fixed_point(similarity.num, similarity.den, 3);
                attrs.push(text_attribute("signal.evidence.similarity", text.as_str()));
                attrs.push(
                    text_attribute("signal.evidence.repetition_type", repetition_type.as_str()),
                );
            },
            SignalEvidence::PositiveFeedback { indicator_type, snippet } => {
                attrs.push(
                    text_attribute("signal.evidence.indicator_type", indicator_type.as_str()),
                );
                attrs.push(text_attribute("signal.evidence.snippet", snippet.as_str()));
            },
            SignalEvidence::Escalation { escalation_type, snippet } => {
                attrs.push(
                    text_attribute("signal.evidence.escalation_type", escalation_type.as_str()),
                );
                attrs.push(text_attribute("signal.evidence.snippet", snippet.as_str()));
            },
        }
        assert(attributes_view(attrs@) =~= base_attributes(*self) + evidence_attributes(
            self.evidence,
        ));
        attrs
    }
}

/// What users do belongs to the interaction, what tools do to the execution,
/// and what runs out to the environment. Layers and subtypes are named by
/// what they are.
pub proof fn subtypes_belong_to_layers(s: SignalSubtype)
    ensures
        s is Repair || s is Frustration || s is Repetition || s is PositiveFeedback
            || s is Escalation <==> s.spec_layer() == SignalType::Interaction,
        s is ToolFailure || s is ExecutionLoop <==> s.spec_layer() == SignalType::Execution,
        s is Exhaustion <==> s.spec_layer() == SignalType::Environment,
        SignalType::Interaction.name() == "interaction"@,
        SignalType::Execution.name() == "execution"@,
        SignalType::Environment.name() == "environment"@,
        SignalSubtype::Repair.name() == "repair"@,
        SignalSubtype::Frustration.name() == "frustration"@,
        SignalSubtype::Repetition.name() == "repetition"@,
        SignalSubtype::PositiveFeedback.name() == "positive_feedback"@,
        SignalSubtype::Escalation.name() == "escalation"@,
        SignalSubtype::ToolFailure.name() == "tool_failure"@,
        SignalSubtype::ExecutionLoop.name() == "execution_loop"@,
        SignalSubtype::Exhaustion.name() == "exhaustion"@,
{
}

/// Whether an attribute is among the attributes.
pub open spec fn says(a: Seq<(Seq<char>, ValueFacts)>, key: Seq<char>, value: ValueFacts) -> bool {
    exists|i: int| 0 <= i < a.len() && #[trigger] a[i] == (key, value)
}

/// An event says what it is and which message it comes from, whatever its
/// evidence.
pub proof fn event_says_where_it_comes_from(e: SignalEvent)
    ensures
        says(event_attributes(e), "signal.event_id"@, ValueFacts::Text(e.event_id@)),
        says(event_attributes(e), "signal.type"@, ValueFacts::Text(e.signal_type.name())),
        says(event_attributes(e), "signal.subtype"@, ValueFacts::Text(e.signal_subtype.name())),
        says(
            event_attributes(e),
            "signal.source_message_idx"@,
            ValueFacts::Index(e.source_message_idx as nat),
        ),
{
    let a = event_attributes(e);
    let b = base_attributes(e);
    assert(a[0] == b[0]);
    assert(a[1] == b[1]);
    assert(a[2] == b[2]);
    assert(a[3] == b[3]);
}

/// Evidence is shown: the words, what they indicate, and for a repetition the
/// other message and how alike the two are, to three places.
pub proof fn evidence_is_shown(e: SignalEvent)
    ensures
        e.evidence matches SignalEvidence::Repair { snippet, similar_to_prev_user_turn } ==> says(
            event_attributes(e),
            "signal.evidence.snippet"@,
            ValueFacts::Text(snippet@),
        ) && says(
            event_attributes(e),
            "signal.evidence.similar_to_prev_user_turn"@,
            ValueFacts::Flag(similar_to_prev_user_turn),
        ),
        e.evidence matches SignalEvidence::Frustration { indicator_type, snippet } ==> says(
            event_attributes(e),
            "signal.evidence.indicator_type"@,
            ValueFacts::Text(indicator_type@),
        ) && says(
            event_attributes(e),
            "signal.evidence.snippet"@,
            ValueFacts::Text(snippet@),
        ),
        e.evidence matches SignalEvidence::PositiveFeedback { indicator_type, snippet } ==> says(
            event_attributes(e),
            "signal.evidence.indicator_type"@,
            ValueFacts::Text(indicator_type@),
        ) && says(
            event_attributes(e),
            "signal.evidence.snippet"@,
            ValueFacts::Text(snippet@),
        ),
        e.evidence matches SignalEvidence::Escalation { escalation_type, snippet } ==> says(
            event_attributes(e),
            "signal.evidence.escalation_type"@,
            ValueFacts::Text(escalation_type@),
        ) && says(
            event_attributes(e),
            "signal.evidence.snippet"@,
            ValueFacts::Text(snippet@),
        ),
        e.evidence matches SignalEvidence::Repetition {
            other_message_idx,
            similarity,
            repetition_type,
        } ==> says(
            event_attributes(e),
            "signal.evidence.other_message_idx"@,
            ValueFacts::Index(other_message_idx as nat),
        ) && says(
            event_attributes(e),
            "signal.evidence.similarity"@,
            ValueFacts::Text(rounded_text(similarity.num as nat, similarity.den as nat, 3)),
        ) && says(
            event_attributes(e),
            "signal.evidence.repetition_type"@,
            ValueFacts::Text(repetition_type@),
        ),
{
    let a = event_attributes(e);
    let v = evidence_attributes(e.evidence);
    assert(a[4] == v[0]);
    assert(a[5] == v[1]);
    if e.evidence is Repetition {
        assert(a[6] == v[2]);
    }
}

} // verus!
