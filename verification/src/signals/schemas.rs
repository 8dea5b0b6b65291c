//! Data shapes for the signal analyzer.

use crate::natural::Ratio;
use crate::text::{clone_texts, texts};
use vstd::prelude::*;

verus! {

/// Hierarchical signal type, the leaves of the taxonomy.
#[derive(Debug, Clone, Copy, PartialEq, Eq, Hash, Structural)]
pub enum SignalType {
    // Interaction > Misalignment
    MisalignmentCorrection,
    MisalignmentRephrase,
    MisalignmentClarification,
    // Interaction > Stagnation
    StagnationDragging,
    StagnationRepetition,
    // Interaction > Disengagement
    DisengagementEscalation,
    DisengagementQuit,
    DisengagementNegativeStance,
    // Interaction > Satisfaction
    SatisfactionGratitude,
    SatisfactionConfirmation,
    SatisfactionSuccess,
    // Execution > Failure
    ExecutionFailureInvalidArgs,
    ExecutionFailureBadQuery,
    ExecutionFailureToolNotFound,
    ExecutionFailureAuthMisuse,
    ExecutionFailureStateError,
    // Execution > Loops
    ExecutionLoopsRetry,
    ExecutionLoopsParameterDrift,
    ExecutionLoopsOscillation,
    // Environment > Exhaustion
    EnvironmentExhaustionApiError,
    EnvironmentExhaustionTimeout,
    EnvironmentExhaustionRateLimit,
    EnvironmentExhaustionNetwork,
    EnvironmentExhaustionMalformed,
    EnvironmentExhaustionContextOverflow,
}

impl SignalType {
    /// Dotted hierarchical identifier.
    pub open spec fn name(self) -> Seq<char> {
        match self {
            SignalType::MisalignmentCorrection => "interaction.misalignment.correction"@,
            SignalType::MisalignmentRephrase => "interaction.misalignment.rephrase"@,
            SignalType::MisalignmentClarification => "interaction.misalignment.clarification"@,
            SignalType::StagnationDragging => "interaction.stagnation.dragging"@,
            SignalType::StagnationRepetition => "interaction.stagnation.repetition"@,
            SignalType::DisengagementEscalation => "interaction.disengagement.escalation"@,
            SignalType::DisengagementQuit => "interaction.disengagement.quit"@,
            SignalType::DisengagementNegativeStance => "interaction.disengagement.negative_stance"@,
            SignalType::SatisfactionGratitude => "interaction.satisfaction.gratitude"@,
            SignalType::SatisfactionConfirmation => "interaction.satisfaction.confirmation"@,
            SignalType::SatisfactionSuccess => "interaction.satisfaction.success"@,
            SignalType::ExecutionFailureInvalidArgs => "execution.failure.invalid_args"@,
            SignalType::ExecutionFailureBadQuery => "execution.failure.bad_query"@,
            SignalType::ExecutionFailureToolNotFound => "execution.failure.tool_not_found"@,
            SignalType::ExecutionFailureAuthMisuse => "execution.failure.auth_misuse"@,
            SignalType::ExecutionFailureStateError => "execution.failure.state_error"@,
            SignalType::ExecutionLoopsRetry => "execution.loops.retry"@,
            SignalType::ExecutionLoopsParameterDrift => "execution.loops.parameter_drift"@,
            SignalType::ExecutionLoopsOscillation => "execution.loops.oscillation"@,
            SignalType::EnvironmentExhaustionApiError => "environment.exhaustion.api_error"@,
            SignalType::EnvironmentExhaustionTimeout => "environment.exhaustion.timeout"@,
            SignalType::EnvironmentExhaustionRateLimit => "environment.exhaustion.rate_limit"@,
            SignalType::EnvironmentExhaustionNetwork => "environment.exhaustion.network"@,
            SignalType::EnvironmentExhaustionMalformed => {
                "environment.exhaustion.malformed_response"@
            },
            SignalType::EnvironmentExhaustionContextOverflow => {
                "environment.exhaustion.context_overflow"@
            },
        }
    }

    /// The layer the type belongs to.
    pub open spec fn spec_layer(self) -> SignalLayer {
        match self {
            SignalType::MisalignmentCorrection
            | SignalType::MisalignmentRephrase
            | SignalType::MisalignmentClarification
            | SignalType::StagnationDragging
            | SignalType::StagnationRepetition
            | SignalType::DisengagementEscalation
            | SignalType::DisengagementQuit
            | SignalType::DisengagementNegativeStance
            | SignalType::SatisfactionGratitude
            | SignalType::SatisfactionConfirmation
            | SignalType::SatisfactionSuccess => SignalLayer::Interaction,
            SignalType::ExecutionFailureInvalidArgs
            | SignalType::ExecutionFailureBadQuery
            | SignalType::ExecutionFailureToolNotFound
            | SignalType::ExecutionFailureAuthMisuse
            | SignalType::ExecutionFailureStateError
            | SignalType::ExecutionLoopsRetry
            | SignalType::ExecutionLoopsParameterDrift
            | SignalType::ExecutionLoopsOscillation => SignalLayer::Execution,
            SignalType::EnvironmentExhaustionApiError
            | SignalType::EnvironmentExhaustionTimeout
            | SignalType::EnvironmentExhaustionRateLimit
            | SignalType::EnvironmentExhaustionNetwork
            | SignalType::EnvironmentExhaustionMalformed
            | SignalType::EnvironmentExhaustionContextOverflow => SignalLayer::Environment,
        }
    }

    /// The category within the layer.
    pub open spec fn spec_category(self) -> Seq<char> {
        match self {
            SignalType::MisalignmentCorrection
            | SignalType::MisalignmentRephrase
            | SignalType::MisalignmentClarification => "misalignment"@,
            SignalType::StagnationDragging
            | SignalType::StagnationRepetition => "stagnation"@,
            SignalType::DisengagementEscalation
            | SignalType::DisengagementQuit
            | SignalType::DisengagementNegativeStance => "disengagement"@,
            SignalType::SatisfactionGratitude
            | SignalType::SatisfactionConfirmation
            | SignalType::SatisfactionSuccess => "satisfaction"@,
            SignalType::ExecutionFailureInvalidArgs
            | SignalType::ExecutionFailureBadQuery
            | SignalType::ExecutionFailureToolNotFound
            | SignalType::ExecutionFailureAuthMisuse
            | SignalType::ExecutionFailureStateError => "failure"@,
            SignalType::ExecutionLoopsRetry
            | SignalType::ExecutionLoopsParameterDrift
            | SignalType::ExecutionLoopsOscillation => "loops"@,
            SignalType::EnvironmentExhaustionApiError
            | SignalType::EnvironmentExhaustionTimeout
            | SignalType::EnvironmentExhaustionRateLimit
            | SignalType::EnvironmentExhaustionNetwork
            | SignalType::EnvironmentExhaustionMalformed
            | SignalType::EnvironmentExhaustionContextOverflow => "exhaustion"@,
        }
    }

    /// The last component of the identifier.
    pub open spec fn leaf(self) -> Seq<char> {
        match self {
            SignalType::MisalignmentCorrection => "correction"@,
            SignalType::MisalignmentRephrase => "rephrase"@,
            SignalType::MisalignmentClarification => "clarification"@,
            SignalType::StagnationDragging => "dragging"@,
            SignalType::StagnationRepetition => "repetition"@,
            SignalType::DisengagementEscalation => "escalation"@,
            SignalType::DisengagementQuit => "quit"@,
            SignalType::DisengagementNegativeStance => "negative_stance"@,
            SignalType::SatisfactionGratitude => "gratitude"@,
            SignalType::SatisfactionConfirmation => "confirmation"@,
            SignalType::SatisfactionSuccess => "success"@,
            SignalType::ExecutionFailureInvalidArgs => "invalid_args"@,
            SignalType::ExecutionFailureBadQuery => "bad_query"@,
            SignalType::ExecutionFailureToolNotFound => "tool_not_found"@,
            SignalType::ExecutionFailureAuthMisuse => "auth_misuse"@,
            SignalType::ExecutionFailureStateError => "state_error"@,
            SignalType::ExecutionLoopsRetry => "retry"@,
            SignalType::ExecutionLoopsParameterDrift => "parameter_drift"@,
            SignalType::ExecutionLoopsOscillation => "oscillation"@,
            SignalType::EnvironmentExhaustionApiError => "api_error"@,
            SignalType::EnvironmentExhaustionTimeout => "timeout"@,
            SignalType::EnvironmentExhaustionRateLimit => "rate_limit"@,
            SignalType::EnvironmentExhaustionNetwork => "network"@,
            SignalType::EnvironmentExhaustionMalformed => "malformed_response"@,
            SignalType::EnvironmentExhaustionContextOverflow => "context_overflow"@,
        }
    }

    /// Dotted hierarchical string identifier, e.g.
    /// `"interaction.misalignment.correction"`.
    pub fn as_str(&self) -> (r: &'static str)
        ensures
            r@ == self.name(),
    {
        match self {
            SignalType::MisalignmentCorrection => "interaction.misalignment.correction",
            SignalType::MisalignmentRephrase => "interaction.misalignment.rephrase",
            SignalType::MisalignmentClarification => "interaction.misalignment.clarification",
            SignalType::StagnationDragging => "interaction.stagnation.dragging",
            SignalType::StagnationRepetition => "interaction.stagnation.repetition",
            SignalType::DisengagementEscalation => "interaction.disengagement.escalation",
            SignalType::DisengagementQuit => "interaction.disengagement.quit",
            SignalType::DisengagementNegativeStance => "interaction.disengagement.negative_stance",
            SignalType::SatisfactionGratitude => "interaction.satisfaction.gratitude",
            SignalType::SatisfactionConfirmation => "interaction.satisfaction.confirmation",
            SignalType::SatisfactionSuccess => "interaction.satisfaction.success",
            SignalType::ExecutionFailureInvalidArgs => "execution.failure.invalid_args",
            SignalType::ExecutionFailureBadQuery => "execution.failure.bad_query",
            SignalType::ExecutionFailureToolNotFound => "execution.failure.tool_not_found",
            SignalType::ExecutionFailureAuthMisuse => "execution.failure.auth_misuse",
            SignalType::ExecutionFailureStateError => "execution.failure.state_error",
            SignalType::ExecutionLoopsRetry => "execution.loops.retry",
            SignalType::ExecutionLoopsParameterDrift => "execution.loops.parameter_drift",
            SignalType::ExecutionLoopsOscillation => "execution.loops.oscillation",
            SignalType::EnvironmentExhaustionApiError => "environment.exhaustion.api_error",
            SignalType::EnvironmentExhaustionTimeout => "environment.exhaustion.timeout",
            SignalType::EnvironmentExhaustionRateLimit => "environment.exhaustion.rate_limit",
            SignalType::EnvironmentExhaustionNetwork => "environment.exhaustion.network",
            SignalType::EnvironmentExhaustionMalformed => {
                "environment.exhaustion.malformed_response"
            },
            SignalType::EnvironmentExhaustionContextOverflow => {
                "environment.exhaustion.context_overflow"
            },
        }
    }

    /// The layer of the taxonomy the signal belongs to.
    pub fn layer(&self) -> (r: SignalLayer)
        ensures
            r == self.spec_layer(),
    {
        match self {
            SignalType::MisalignmentCorrection
            | SignalType::MisalignmentRephrase
            | SignalType::MisalignmentClarification
            | SignalType::StagnationDragging
            | SignalType::StagnationRepetition
            | SignalType::DisengagementEscalation
            | SignalType::DisengagementQuit
            | SignalType::DisengagementNegativeStance
            | SignalType::SatisfactionGratitude
            | SignalType::SatisfactionConfirmation
            | SignalType::SatisfactionSuccess => SignalLayer::Interaction,
            SignalType::ExecutionFailureInvalidArgs
            | SignalType::ExecutionFailureBadQuery
            | SignalType::ExecutionFailureToolNotFound
            | SignalType::ExecutionFailureAuthMisuse
            | SignalType::ExecutionFailureStateError
            | SignalType::ExecutionLoopsRetry
            | SignalType::ExecutionLoopsParameterDrift
            | SignalType::ExecutionLoopsOscillation => SignalLayer::Execution,
            SignalType::EnvironmentExhaustionApiError
            | SignalType::EnvironmentExhaustionTimeout
            | SignalType::EnvironmentExhaustionRateLimit
            | SignalType::EnvironmentExhaustionNetwork
            | SignalType::EnvironmentExhaustionMalformed
            | SignalType::EnvironmentExhaustionContextOverflow => SignalLayer::Environment,
        }
    }

    /// Category name within the layer (e.g. `"misalignment"`, `"failure"`).
    pub fn category(&self) -> (r: &'static str)
        ensures
            r@ == self.spec_category(),
    {
        match self {
            SignalType::MisalignmentCorrection
            | SignalType::MisalignmentRephrase
            | SignalType::MisalignmentClarification => "misalignment",
            SignalType::StagnationDragging
            | SignalType::StagnationRepetition => "stagnation",
            SignalType::DisengagementEscalation
            | SignalType::DisengagementQuit
            | SignalType::DisengagementNegativeStance => "disengagement",
            SignalType::SatisfactionGratitude
            | SignalType::SatisfactionConfirmation
            | SignalType::SatisfactionSuccess => "satisfaction",
            SignalType::ExecutionFailureInvalidArgs
            | SignalType::ExecutionFailureBadQuery
            | SignalType::ExecutionFailureToolNotFound
            | SignalType::ExecutionFailureAuthMisuse
            | SignalType::ExecutionFailureStateError => "failure",
            SignalType::ExecutionLoopsRetry
            | SignalType::ExecutionLoopsParameterDrift
            | SignalType::ExecutionLoopsOscillation => "loops",
            SignalType::EnvironmentExhaustionApiError
            | SignalType::EnvironmentExhaustionTimeout
            | SignalType::EnvironmentExhaustionRateLimit
            | SignalType::EnvironmentExhaustionNetwork
            | SignalType::EnvironmentExhaustionMalformed
            | SignalType::EnvironmentExhaustionContextOverflow => "exhaustion",
        }
    }
}

/// Every identifier reads `layer.category.leaf`: the category is what stands
/// between its two dots, and the layer what stands before the first.
pub proof fn identifier_is_hierarchical(t: SignalType)
    ensures
        t.name() == t.spec_layer().name() + "."@ + t.spec_category() + "."@ + t.leaf(),
        !t.spec_layer().name().contains('.'),
        !t.spec_category().contains('.'),
        !t.leaf().contains('.'),
        t.spec_category().len() > 0,
        t.leaf().len() > 0,
{
    reveal_strlit(".");
    reveal_strlit("interaction");
    reveal_strlit("execution");
    reveal_strlit("environment");
    match t {
        SignalType::MisalignmentCorrection => {
            reveal_strlit("interaction.misalignment.correction");
            reveal_strlit("misalignment");
            reveal_strlit("correction");
            assert(t.name() =~= "interaction"@ + "."@ + "misalignment"@ + "."@ + "correction"@);
        },
        SignalType::MisalignmentRephrase => {
            reveal_strlit("interaction.misalignment.rephrase");
            reveal_strlit("misalignment");
            reveal_strlit("rephrase");
            assert(t.name() =~= "interaction"@ + "."@ + "misalignment"@ + "."@ + "rephrase"@);
        },
        SignalType::MisalignmentClarification => {
            reveal_strlit("interaction.misalignment.clarification");
            reveal_strlit("misalignment");
            reveal_strlit("clarification");
            assert(t.name() =~= "interaction"@ + "."@ + "misalignment"@ + "."@ + "clarification"@);
        },
        SignalType::StagnationDragging => {
            reveal_strlit("interaction.stagnation.dragging");
            reveal_strlit("stagnation");
            reveal_strlit("dragging");
            assert(t.name() =~= "interaction"@ + "."@ + "stagnation"@ + "."@ + "dragging"@);
        },
        SignalType::StagnationRepetition => {
            reveal_strlit("interaction.stagnation.repetition");
            reveal_strlit("stagnation");
            reveal_strlit("repetition");
            assert(t.name() =~= "interaction"@ + "."@ + "stagnation"@ + "."@ + "repetition"@);
        },
        SignalType::DisengagementEscalation => {
            reveal_strlit("interaction.disengagement.escalation");
            reveal_strlit("disengagement");
            reveal_strlit("escalation");
            assert(t.name() =~= "interaction"@ + "."@ + "disengagement"@ + "."@ + "escalation"@);
        },
        SignalType::DisengagementQuit => {
            reveal_strlit("interaction.disengagement.quit");
            reveal_strlit("disengagement");
            reveal_strlit("quit");
            assert(t.name() =~= "interaction"@ + "."@ + "disengagement"@ + "."@ + "quit"@);
        },
        SignalType::DisengagementNegativeStance => {
            reveal_strlit("interaction.disengagement.negative_stance");
            reveal_strlit("disengagement");
            reveal_strlit("negative_stance");
            assert(t.name() =~= "interaction"@ + "."@ + "disengagement"@ + "."@ + "negative_stance"@);
        },
        SignalType::SatisfactionGratitude => {
            reveal_strlit("interaction.satisfaction.gratitude");
            reveal_strlit("satisfaction");
            reveal_strlit("gratitude");
            assert(t.name() =~= "interaction"@ + "."@ + "satisfaction"@ + "."@ + "gratitude"@);
        },
        SignalType::SatisfactionConfirmation => {
            reveal_strlit("interaction.satisfaction.confirmation");
            reveal_strlit("satisfaction");
            reveal_strlit("confirmation");
            assert(t.name() =~= "interaction"@ + "."@ + "satisfaction"@ + "."@ + "confirmation"@);
        },
        SignalType::SatisfactionSuccess => {
            reveal_strlit("interaction.satisfaction.success");
            reveal_strlit("satisfaction");
            reveal_strlit("success");
            assert(t.name() =~= "interaction"@ + "."@ + "satisfaction"@ + "."@ + "success"@);
        },
        SignalType::ExecutionFailureInvalidArgs => {
            reveal_strlit("execution.failure.invalid_args");
            reveal_strlit("failure");
            reveal_strlit("invalid_args");
            assert(t.name() =~= "execution"@ + "."@ + "failure"@ + "."@ + "invalid_args"@);
        },
        SignalType::ExecutionFailureBadQuery => {
            reveal_strlit("execution.failure.bad_query");
            reveal_strlit("failure");
            reveal_strlit("bad_query");
            assert(t.name() =~= "execution"@ + "."@ + "failure"@ + "."@ + "bad_query"@);
        },
        SignalType::ExecutionFailureToolNotFound => {
            reveal_strlit("execution.failure.tool_not_found");
            reveal_strlit("failure");
            reveal_strlit("tool_not_found");
            assert(t.name() =~= "execution"@ + "."@ + "failure"@ + "."@ + "tool_not_found"@);
        },
        SignalType::ExecutionFailureAuthMisuse => {
            reveal_strlit("execution.failure.auth_misuse");
            reveal_strlit("failure");
            reveal_strlit("auth_misuse");
            assert(t.name() =~= "execution"@ + "."@ + "failure"@ + "."@ + "auth_misuse"@);
        },
        SignalType::ExecutionFailureStateError => {
            reveal_strlit("execution.failure.state_error");
            reveal_strlit("failure");
            reveal_strlit("state_error");
            assert(t.name() =~= "execution"@ + "."@ + "failure"@ + "."@ + "state_error"@);
        },
        SignalType::ExecutionLoopsRetry => {
            reveal_strlit("execution.loops.retry");
            reveal_strlit("loops");
            reveal_strlit("retry");
            assert(t.name() =~= "execution"@ + "."@ + "loops"@ + "."@ + "retry"@);
        },
        SignalType::ExecutionLoopsParameterDrift => {
            reveal_strlit("execution.loops.parameter_drift");
            reveal_strlit("loops");
            reveal_strlit("parameter_drift");
            assert(t.name() =~= "execution"@ + "."@ + "loops"@ + "."@ + "parameter_drift"@);
        },
        SignalType::ExecutionLoopsOscillation => {
            reveal_strlit("execution.loops.oscillation");
            reveal_strlit("loops");
            reveal_strlit("oscillation");
            assert(t.name() =~= "execution"@ + "."@ + "loops"@ + "."@ + "oscillation"@);
        },
        SignalType::EnvironmentExhaustionApiError => {
            reveal_strlit("environment.exhaustion.api_error");
            reveal_strlit("exhaustion");
            reveal_strlit("api_error");
            assert(t.name() =~= "environment"@ + "."@ + "exhaustion"@ + "."@ + "api_error"@);
        },
        SignalType::EnvironmentExhaustionTimeout => {
            reveal_strlit("environment.exhaustion.timeout");
            reveal_strlit("exhaustion");
            reveal_strlit("timeout");
            assert(t.name() =~= "environment"@ + "."@ + "exhaustion"@ + "."@ + "timeout"@);
        },
        SignalType::EnvironmentExhaustionRateLimit => {
            reveal_strlit("environment.exhaustion.rate_limit");
            reveal_strlit("exhaustion");
            reveal_strlit("rate_limit");
            assert(t.name() =~= "environment"@ + "."@ + "exhaustion"@ + "."@ + "rate_limit"@);
        },
        SignalType::EnvironmentExhaustionNetwork => {
            reveal_strlit("environment.exhaustion.network");
            reveal_strlit("exhaustion");
            reveal_strlit("network");
            assert(t.name() =~= "environment"@ + "."@ + "exhaustion"@ + "."@ + "network"@);
        },
        SignalType::EnvironmentExhaustionMalformed => {
            reveal_strlit("environment.exhaustion.malformed_response");
            reveal_strlit("exhaustion");
            reveal_strlit("malformed_response");
            assert(t.name() =~= "environment"@ + "."@ + "exhaustion"@ + "."@ + "malformed_response"@);
        },
        SignalType::EnvironmentExhaustionContextOverflow => {
            reveal_strlit("environment.exhaustion.context_overflow");
            reveal_strlit("exhaustion");
            reveal_strlit("context_overflow");
            assert(t.name() =~= "environment"@ + "."@ + "exhaustion"@ + "."@ + "context_overflow"@);
        },
    }
}

/// The three layers of the taxonomy.
#[derive(Debug, Clone, Copy, PartialEq, Eq, Hash, Structural)]
pub enum SignalLayer {
    Interaction,
    Execution,
    Environment,
}

/// What tells an identifier from all others: its length and two of its letters.
spec fn mark(n: Seq<char>) -> (nat, char, char) {
    (n.len(), n[0], n[n.len() - 1])
}

spec fn mark_of(t: SignalType) -> (nat, char, char) {
    match t {
        SignalType::MisalignmentCorrection => (35, 'i', 'n'),
        SignalType::MisalignmentRephrase => (33, 'i', 'e'),
        SignalType::MisalignmentClarification => (38, 'i', 'n'),
        SignalType::StagnationDragging => (31, 'i', 'g'),
        SignalType::StagnationRepetition => (33, 'i', 'n'),
        SignalType::DisengagementEscalation => (36, 'i', 'n'),
        SignalType::DisengagementQuit => (30, 'i', 't'),
        SignalType::DisengagementNegativeStance => (41, 'i', 'e'),
        SignalType::SatisfactionGratitude => (34, 'i', 'e'),
        SignalType::SatisfactionConfirmation => (37, 'i', 'n'),
        SignalType::SatisfactionSuccess => (32, 'i', 's'),
        SignalType::ExecutionFailureInvalidArgs => (30, 'e', 's'),
        SignalType::ExecutionFailureBadQuery => (27, 'e', 'y'),
        SignalType::ExecutionFailureToolNotFound => (32, 'e', 'd'),
        SignalType::ExecutionFailureAuthMisuse => (29, 'e', 'e'),
        SignalType::ExecutionFailureStateError => (29, 'e', 'r'),
        SignalType::ExecutionLoopsRetry => (21, 'e', 'y'),
        SignalType::ExecutionLoopsParameterDrift => (31, 'e', 't'),
        SignalType::ExecutionLoopsOscillation => (27, 'e', 'n'),
        SignalType::EnvironmentExhaustionApiError => (32, 'e', 'r'),
        SignalType::EnvironmentExhaustionTimeout => (30, 'e', 't'),
        SignalType::EnvironmentExhaustionRateLimit => (33, 'e', 't'),
        SignalType::EnvironmentExhaustionNetwork => (30, 'e', 'k'),
        SignalType::EnvironmentExhaustionMalformed => (41, 'e', 'e'),
        SignalType::EnvironmentExhaustionContextOverflow => (39, 'e', 'w'),
    }
}

proof fn lemma_mark(t: SignalType)
    ensures
        mark(t.name()) == mark_of(t),
{
    match t {
        SignalType::MisalignmentCorrection => reveal_strlit("interaction.misalignment.correction"),
        SignalType::MisalignmentRephrase => reveal_strlit("interaction.misalignment.rephrase"),
        SignalType::MisalignmentClarification => reveal_strlit("interaction.misalignment.clarification"),
        SignalType::StagnationDragging => reveal_strlit("interaction.stagnation.dragging"),
        SignalType::StagnationRepetition => reveal_strlit("interaction.stagnation.repetition"),
        SignalType::DisengagementEscalation => reveal_strlit("interaction.disengagement.escalation"),
        SignalType::DisengagementQuit => reveal_strlit("interaction.disengagement.quit"),
        SignalType::DisengagementNegativeStance => reveal_strlit("interaction.disengagement.negative_stance"),
        SignalType::SatisfactionGratitude => reveal_strlit("interaction.satisfaction.gratitude"),
        SignalType::SatisfactionConfirmation => reveal_strlit("interaction.satisfaction.confirmation"),
        SignalType::SatisfactionSuccess => reveal_strlit("interaction.satisfaction.success"),
        SignalType::ExecutionFailureInvalidArgs => reveal_strlit("execution.failure.invalid_args"),
        SignalType::ExecutionFailureBadQuery => reveal_strlit("execution.failure.bad_query"),
        SignalType::ExecutionFailureToolNotFound => reveal_strlit("execution.failure.tool_not_found"),
        SignalType::ExecutionFailureAuthMisuse => reveal_strlit("execution.failure.auth_misuse"),
        SignalType::ExecutionFailureStateError => reveal_strlit("execution.failure.state_error"),
        SignalType::ExecutionLoopsRetry => reveal_strlit("execution.loops.retry"),
        SignalType::ExecutionLoopsParameterDrift => reveal_strlit("execution.loops.parameter_drift"),
        SignalType::ExecutionLoopsOscillation => reveal_strlit("execution.loops.oscillation"),
        SignalType::EnvironmentExhaustionApiError => reveal_strlit("environment.exhaustion.api_error"),
        SignalType::EnvironmentExhaustionTimeout => reveal_strlit("environment.exhaustion.timeout"),
        SignalType::EnvironmentExhaustionRateLimit => reveal_strlit("environment.exhaustion.rate_limit"),
        SignalType::EnvironmentExhaustionNetwork => reveal_strlit("environment.exhaustion.network"),
        SignalType::EnvironmentExhaustionMalformed => reveal_strlit("environment.exhaustion.malformed_response"),
        SignalType::EnvironmentExhaustionContextOverflow => reveal_strlit("environment.exhaustion.context_overflow"),
    }
}

/// No two signal types have the same identifier.
pub proof fn identifiers_are_distinct(t: SignalType, u: SignalType)
    requires
        t != u,
    ensures
        t.name() != u.name(),
{
    lemma_mark(t);
    lemma_mark(u);
}

impl SignalLayer {
    /// The layer's name.
    pub open spec fn name(self) -> Seq<char> {
        match self {
            SignalLayer::Interaction => "interaction"@,
            SignalLayer::Execution => "execution"@,
            SignalLayer::Environment => "environment"@,
        }
    }

    /// The layer's name.
    pub fn as_str(&self) -> (r: &'static str)
        ensures
            r@ == self.name(),
    {
        match self {
            SignalLayer::Interaction => "interaction",
            SignalLayer::Execution => "execution",
            SignalLayer::Environment => "environment",
        }
    }
}

/// Overall quality assessment for an agent interaction session.
#[derive(Debug, Clone, Copy, PartialEq, Eq, Structural)]
pub enum InteractionQuality {
    Excellent,
    Good,
    Neutral,
    Poor,
    Severe,
}

impl InteractionQuality {
    /// The quality's name.
    pub open spec fn name(self) -> Seq<char> {
        match self {
            InteractionQuality::Excellent => "excellent"@,
            InteractionQuality::Good => "good"@,
            InteractionQuality::Neutral => "neutral"@,
            InteractionQuality::Poor => "poor"@,
            InteractionQuality::Severe => "severe"@,
        }
    }

    /// The quality's name.
    pub fn as_str(&self) -> (r: &'static str)
        ensures
            r@ == self.name(),
    {
        match self {
            InteractionQuality::Excellent => "excellent",
            InteractionQuality::Good => "good",
            InteractionQuality::Neutral => "neutral",
            InteractionQuality::Poor => "poor",
            InteractionQuality::Severe => "severe",
        }
    }
}

/// What a detector adds to a signal it reports.
#[derive(Debug)]
pub enum Metadata {
    /// Nothing to report beyond the signal itself.
    Empty,
    /// A phrase of a pattern table occurred.
    Pattern { pattern_type: String },
    /// The message says again what an earlier one said.
    SemanticRephrase { compared_to: usize },
    /// The message shouts in capitals.
    AllCaps { upper_ratio: Ratio },
    /// Runs of question and exclamation marks.
    ExcessivePunctuation {
        consecutive_questions: usize,
        consecutive_exclamations: usize,
        mixed_punctuation: usize,
    },
    /// Profanity directed at the agent.
    Profanity { pattern: String },
    /// A complaint about the agent.
    Complaint { pattern: String },
    /// The conversation takes too many turns.
    Dragging { total_turns: usize, efficiency_score: Ratio, baseline_turns: usize },
    /// The message repeats an earlier one.
    Repetition { repetition_type: String, compared_to: usize, similarity: Ratio, role: String },
    /// A tool call failed.
    Failure { tool_name: String, call_index: usize, error_type: String, matched: String },
    /// The environment refused.
    Exhaustion { exhaustion_type: String, matched: String },
    /// The same call over and over.
    Retry { tool_name: String, start_index: usize, end_index: usize, call_count: usize },
    /// The same tool with changing arguments.
    ParameterDrift {
        tool_name: String,
        start_index: usize,
        end_index: usize,
        call_count: usize,
        variation_count: usize,
    },
    /// A cycle of tools.
    Oscillation { tools: Vec<String>, start_index: usize, end_index: usize, cycle_count: usize },
}

/// What a [`Metadata`] holds.
pub enum MetadataFacts {
    Empty,
    Pattern { pattern_type: Seq<char> },
    SemanticRephrase { compared_to: nat },
    AllCaps { upper_ratio: Ratio },
    ExcessivePunctuation {
        consecutive_questions: nat,
        consecutive_exclamations: nat,
        mixed_punctuation: nat,
    },
    Profanity { pattern: Seq<char> },
    Complaint { pattern: Seq<char> },
    Dragging { total_turns: nat, efficiency_score: Ratio, baseline_turns: nat },
    Repetition { repetition_type: Seq<char>, compared_to: nat, similarity: Ratio, role: Seq<char> },
    Failure { tool_name: Seq<char>, call_index: nat, error_type: Seq<char>, matched: Seq<char> },
    Exhaustion { exhaustion_type: Seq<char>, matched: Seq<char> },
    Retry { tool_name: Seq<char>, start_index: nat, end_index: nat, call_count: nat },
    ParameterDrift {
        tool_name: Seq<char>,
        start_index: nat,
        end_index: nat,
        call_count: nat,
        variation_count: nat,
    },
    Oscillation { tools: Seq<Seq<char>>, start_index: nat, end_index: nat, cycle_count: nat },
}

impl View for Metadata {
    type V = MetadataFacts;

    open spec fn view(&self) -> MetadataFacts {
        match self {
            Metadata::Empty => MetadataFacts::Empty,
            Metadata::Pattern { pattern_type } => MetadataFacts::Pattern {
                pattern_type: pattern_type@,
            },
            Metadata::SemanticRephrase { compared_to } => MetadataFacts::SemanticRephrase {
                compared_to: *compared_to as nat,
            },
            Metadata::AllCaps { upper_ratio } => MetadataFacts::AllCaps {
                upper_ratio: *upper_ratio,
            },
            Metadata::ExcessivePunctuation {
                consecutive_questions,
                consecutive_exclamations,
                mixed_punctuation,
            } => MetadataFacts::ExcessivePunctuation {
                consecutive_questions: *consecutive_questions as nat,
                consecutive_exclamations: *consecutive_exclamations as nat,
                mixed_punctuation: *mixed_punctuation as nat,
            },
            Metadata::Profanity { pattern } => MetadataFacts::Profanity { pattern: pattern@ },
            Metadata::Complaint { pattern } => MetadataFacts::Complaint { pattern: pattern@ },
            Metadata::Dragging {
                total_turns,
                efficiency_score,
                baseline_turns,
            } => MetadataFacts::Dragging {
                total_turns: *total_turns as nat,
                efficiency_score: *efficiency_score,
                baseline_turns: *baseline_turns as nat,
            },
            Metadata::Repetition {
                repetition_type,
                compared_to,
                similarity,
                role,
            } => MetadataFacts::Repetition {
                repetition_type: repetition_type@,
                compared_to: *compared_to as nat,
                similarity: *similarity,
                role: role@,
            },
            Metadata::Failure {
                tool_name,
                call_index,
                error_type,
                matched,
            } => MetadataFacts::Failure {
                tool_name: tool_name@,
                call_index: *call_index as nat,
                error_type: error_type@,
                matched: matched@,
            },
            Metadata::Exhaustion { exhaustion_type, matched } => MetadataFacts::Exhaustion {
                exhaustion_type: exhaustion_type@,
                matched: matched@,
            },
            Metadata::Retry {
                tool_name,
                start_index,
                end_index,
                call_count,
            } => MetadataFacts::Retry {
                tool_name: tool_name@,
                start_index: *start_index as nat,
                end_index: *end_index as nat,
                call_count: *call_count as nat,
            },
            Metadata::ParameterDrift {
                tool_name,
                start_index,
                end_index,
                call_count,
                variation_count,
            } => MetadataFacts::ParameterDrift {
                tool_name: tool_name@,
                start_index: *start_index as nat,
                end_index: *end_index as nat,
                call_count: *call_count as nat,
                variation_count: *variation_count as nat,
            },
            Metadata::Oscillation {
                tools,
                start_index,
                end_index,
                cycle_count,
            } => MetadataFacts::Oscillation {
                tools: texts(tools@),
                start_index: *start_index as nat,
                end_index: *end_index as nat,
                cycle_count: *cycle_count as nat,
            },
        }
    }
}

impl Clone for Metadata {
    fn clone(&self) -> (r: Self)
        ensures
            r@ == self@,
    {
        match self {
            Metadata::Empty => Metadata::Empty,
            Metadata::Pattern { pattern_type } => Metadata::Pattern {
                pattern_type: pattern_type.clone(),
            },
            Metadata::SemanticRephrase { compared_to } => Metadata::SemanticRephrase {
                compared_to: *compared_to,
            },
            Metadata::AllCaps { upper_ratio } => Metadata::AllCaps { upper_ratio: *upper_ratio },
            Metadata::ExcessivePunctuation {
                consecutive_questions,
                consecutive_exclamations,
                mixed_punctuation,
            } => Metadata::ExcessivePunctuation {
                consecutive_questions: *consecutive_questions,
                consecutive_exclamations: *consecutive_exclamations,
                mixed_punctuation: *mixed_punctuation,
            },
            Metadata::Profanity { pattern } => Metadata::Profanity { pattern: pattern.clone() },
            Metadata::Complaint { pattern } => Metadata::Complaint { pattern: pattern.clone() },
            Metadata::Dragging {
                total_turns,
                efficiency_score,
                baseline_turns,
            } => Metadata::Dragging {
                total_turns: *total_turns,
                efficiency_score: *efficiency_score,
                baseline_turns: *baseline_turns,
            },
            Metadata::Repetition {
                repetition_type,
                compared_to,
                similarity,
                role,
            } => Metadata::Repetition {
                repetition_type: repetition_type.clone(),
                compared_to: *compared_to,
                similarity: *similarity,
                role: role.clone(),
            },
            Metadata::Failure { tool_name, call_index, error_type, matched } => Metadata::Failure {
                tool_name: tool_name.clone(),
                call_index: *call_index,
                error_type: error_type.clone(),
                matched: matched.clone(),
            },
            Metadata::Exhaustion { exhaustion_type, matched } => Metadata::Exhaustion {
                exhaustion_type: exhaustion_type.clone(),
                matched: matched.clone(),
            },
            Metadata::Retry { tool_name, start_index, end_index, call_count } => Metadata::Retry {
                tool_name: tool_name.clone(),
                start_index: *start_index,
                end_index: *end_index,
                call_count: *call_count,
            },
            Metadata::ParameterDrift {
                tool_name,
                start_index,
                end_index,
                call_count,
                variation_count,
            } => Metadata::ParameterDrift {
                tool_name: tool_name.clone(),
                start_index: *start_index,
                end_index: *end_index,
                call_count: *call_count,
                variation_count: *variation_count,
            },
            Metadata::Oscillation {
                tools,
                start_index,
                end_index,
                cycle_count,
            } => Metadata::Oscillation {
                tools: clone_texts(tools),
                start_index: *start_index,
                end_index: *end_index,
                cycle_count: *cycle_count,
            },
        }
    }
}

/// A single detected signal instance.
#[derive(Debug)]
pub struct SignalInstance {
    pub signal_type: SignalType,
    /// Absolute index into the analyzed conversation.
    pub message_index: usize,
    pub snippet: String,
    pub confidence: Ratio,
    /// What the detector adds.
    pub metadata: Metadata,
}

/// What a [`SignalInstance`] says.
pub struct SignalFacts {
    pub signal_type: SignalType,
    pub message_index: nat,
    pub snippet: Seq<char>,
    pub confidence: Ratio,
    pub metadata: MetadataFacts,
}

impl View for SignalInstance {
    type V = SignalFacts;

    open spec fn view(&self) -> SignalFacts {
        SignalFacts {
            signal_type: self.signal_type,
            message_index: self.message_index as nat,
            snippet: self.snippet@,
            confidence: self.confidence,
            metadata: self.metadata@,
        }
    }
}

/// Full confidence.
pub open spec fn certain() -> Ratio {
    Ratio { num: 1, den: 1 }
}

/// The signals held by a sequence of instances.
pub open spec fn signals_view(v: Seq<SignalInstance>) -> Seq<SignalFacts> {
    Seq::new(v.len(), |i: int| v[i]@)
}

pub proof fn lemma_signals_push(v: Seq<SignalInstance>, s: SignalInstance)
    ensures
        signals_view(v.push(s)) == signals_view(v).push(s@),
{
    assert(signals_view(v.push(s)) =~= signals_view(v).push(s@));
}

impl Clone for SignalInstance {
    fn clone(&self) -> (r: Self)
        ensures
            r@ == self@,
    {
        SignalInstance {
            signal_type: self.signal_type,
            message_index: self.message_index,
            snippet: self.snippet.clone(),
            confidence: self.confidence,
            metadata: self.metadata.clone(),
        }
    }
}

impl SignalInstance {
    /// A signal with full confidence and no metadata.
    pub fn new(signal_type: SignalType, message_index: usize, snippet: &str) -> (r: Self)
        ensures
            r@ == (SignalFacts {
                signal_type,
                message_index: message_index as nat,
                snippet: snippet@,
                confidence: certain(),
                metadata: MetadataFacts::Empty,
            }),
    {
        SignalInstance {
            signal_type,
            message_index,
            snippet: snippet.to_owned(),
            confidence: Ratio { num: 1, den: 1 },
            metadata: Metadata::Empty,
        }
    }

    /// The signal with another confidence.
    pub fn with_confidence(self, c: Ratio) -> (r: Self)
        ensures
            r@ == (SignalFacts { confidence: c, ..self@ }),
    {
        SignalInstance {
            signal_type: self.signal_type,
            message_index: self.message_index,
            snippet: self.snippet,
            confidence: c,
            metadata: self.metadata,
        }
    }

    /// The signal with other metadata.
    pub fn with_metadata(self, m: Metadata) -> (r: Self)
        ensures
            r@ == (SignalFacts { metadata: m@, ..self@ }),
    {
        SignalInstance {
            signal_type: self.signal_type,
            message_index: self.message_index,
            snippet: self.snippet,
            confidence: self.confidence,
            metadata: m,
        }
    }
}

/// Copies signals.
pub fn clone_signals(v: &Vec<SignalInstance>) -> (r: Vec<SignalInstance>)
    ensures
        signals_view(r@) == signals_view(v@),
{
    let mut r: Vec<SignalInstance> = Vec::new();
    let mut i: usize = 0;
    while i < v.len()
        invariant
            i <= v.len(),
            r@.len() == i,
            forall|j: int| 0 <= j < i ==> (#[trigger] r@[j])@ == v@[j]@,
        decreases v.len() - i,
    {
        r.push(v[i].clone());
        i += 1;
    }
    assert(signals_view(r@) =~= signals_view(v@));
    r
}

/// Appends copies of `more` to `v`.
pub fn extend_signals(v: &mut Vec<SignalInstance>, more: &Vec<SignalInstance>)
    ensures
        signals_view(final(v)@) == signals_view(old(v)@) + signals_view(more@),
{
    let ghost before = v@;
    let mut i: usize = 0;
    while i < more.len()
        invariant
            i <= more.len(),
            v@.len() == before.len() + i,
            forall|j: int| 0 <= j < before.len() ==> (#[trigger] v@[j]) == before[j],
            forall|j: int|
                before.len() <= j < before.len() + i ==> (#[trigger] v@[j])@ == more@[j
                    - before.len()]@,
        decreases more.len() - i,
    {
        v.push(more[i].clone());
        i += 1;
    }
    assert(signals_view(v@) =~= signals_view(before) + signals_view(more@));
}

/// Severity level of a number of signals (0-3: none, mild, moderate, severe).
pub open spec fn severity_of(count: nat) -> u8 {
    if count == 0 {
        0
    } else if count <= 2 {
        1
    } else if count <= 4 {
        2
    } else {
        3
    }
}

/// Aggregated signals for a specific category.
#[derive(Debug)]
pub struct SignalGroup {
    pub category: String,
    pub count: usize,
    pub signals: Vec<SignalInstance>,
    /// Severity level (0-3: none, mild, moderate, severe).
    pub severity: u8,
}

/// What a [`SignalGroup`] says.
#[verifier::ext_equal]
pub struct GroupFacts {
    pub category: Seq<char>,
    pub count: nat,
    pub signals: Seq<SignalFacts>,
    pub severity: u8,
}

impl View for SignalGroup {
    type V = GroupFacts;

    open spec fn view(&self) -> GroupFacts {
        GroupFacts {
            category: self.category@,
            count: self.count as nat,
            signals: signals_view(self.signals@),
            severity: self.severity,
        }
    }
}

/// The group of a category that holds `signals`.
pub open spec fn group_of(category: Seq<char>, signals: Seq<SignalFacts>) -> GroupFacts {
    GroupFacts { category, count: signals.len(), signals, severity: severity_of(signals.len()) }
}

impl Clone for SignalGroup {
    fn clone(&self) -> (r: Self)
        ensures
            r@ == self@,
    {
        SignalGroup {
            category: self.category.clone(),
            count: self.count,
            signals: clone_signals(&self.signals),
            severity: self.severity,
        }
    }
}

impl SignalGroup {
    /// An empty group.
    pub fn new(category: &str) -> (r: Self)
        ensures
            r@ == group_of(category@, Seq::empty()),
    {
        let r: SignalGroup = SignalGroup {
            category: category.to_owned(),
            count: 0,
            signals: Vec::new(),
            severity: 0,
        };
        assert(r@ =~= group_of(category@, Seq::empty()));
        r
    }

    /// Adds a signal and brings count and severity up to date.
    pub fn add_signal(&mut self, signal: SignalInstance)
        ensures
            final(self)@ == group_of(old(self)@.category, old(self)@.signals.push(signal@)),
    {
        proof {
            lemma_signals_push(self.signals@, signal);
        }
        self.signals.push(signal);
        self.count = self.signals.len();
        self.update_severity();
    }

    fn update_severity(&mut self)
        ensures
            final(self)@ == (GroupFacts {
                severity: severity_of(old(self)@.count),
                ..old(self)@
            }),
    {
        self.severity = match self.count {
            0 => 0,
            1 | 2 => 1,
            3 | 4 => 2,
            _ => 3,
        };
    }
}

/// A group holding the given signals.
pub fn make_group(category: &str, signals: Vec<SignalInstance>) -> (r: SignalGroup)
    ensures
        r@ == group_of(category@, signals_view(signals@)),
{
    let mut r: SignalGroup = SignalGroup {
        category: category.to_owned(),
        count: signals.len(),
        signals,
        severity: 0,
    };
    r.update_severity();
    r
}

/// Turn count and efficiency metrics, used by stagnation.dragging.
#[derive(Debug, Clone, Copy, PartialEq, Eq, Structural)]
pub struct TurnMetrics {
    pub total_turns: usize,
    pub user_turns: usize,
    pub assistant_turns: usize,
    pub is_dragging: bool,
    pub efficiency_score: Ratio,
}

/// Metrics of no turns at all.
pub open spec fn no_turns() -> TurnMetrics {
    TurnMetrics {
        total_turns: 0,
        user_turns: 0,
        assistant_turns: 0,
        is_dragging: false,
        efficiency_score: Ratio { num: 0, den: 1 },
    }
}

impl Default for TurnMetrics {
    fn default() -> (r: Self)
        ensures
            r == no_turns(),
    {
        TurnMetrics {
            total_turns: 0,
            user_turns: 0,
            assistant_turns: 0,
            is_dragging: false,
            efficiency_score: Ratio { num: 0, den: 1 },
        }
    }
}

/// Signals of the interaction layer.
#[derive(Debug)]
pub struct InteractionSignals {
    pub misalignment: SignalGroup,
    pub stagnation: SignalGroup,
    pub disengagement: SignalGroup,
    pub satisfaction: SignalGroup,
}

/// What an [`InteractionSignals`] says.
#[verifier::ext_equal]
pub struct InteractionFacts {
    pub misalignment: GroupFacts,
    pub stagnation: GroupFacts,
    pub disengagement: GroupFacts,
    pub satisfaction: GroupFacts,
}

impl View for InteractionSignals {
    type V = InteractionFacts;

    open spec fn view(&self) -> InteractionFacts {
        InteractionFacts {
            misalignment: self.misalignment@,
            stagnation: self.stagnation@,
            disengagement: self.disengagement@,
            satisfaction: self.satisfaction@,
        }
    }
}

impl Clone for InteractionSignals {
    fn clone(&self) -> (r: Self)
        ensures
            r@ == self@,
    {
        InteractionSignals {
            misalignment: self.misalignment.clone(),
            stagnation: self.stagnation.clone(),
            disengagement: self.disengagement.clone(),
            satisfaction: self.satisfaction.clone(),
        }
    }
}

impl Default for InteractionSignals {
    fn default() -> (r: Self)
        ensures
            r@ == quiet_report().interaction,
    {
        InteractionSignals {
            misalignment: SignalGroup::new("misalignment"),
            stagnation: SignalGroup::new("stagnation"),
            disengagement: SignalGroup::new("disengagement"),
            satisfaction: SignalGroup::new("satisfaction"),
        }
    }
}

/// Misalignment signals per user turn, counting at least one turn.
pub open spec fn misalignment_rate(count: nat, user_turns: nat) -> Ratio {
    Ratio { num: count as u128, den: (if user_turns == 0 { 1 } else { user_turns }) as u128 }
}

impl InteractionSignals {
    /// Misalignment signals per user turn.
    pub fn misalignment_ratio(&self, user_turns: usize) -> (r: Ratio)
        ensures
            r == misalignment_rate(self@.misalignment.count, user_turns as nat),
    {
        let turns: usize = if user_turns == 0 { 1 } else { user_turns };
        Ratio { num: self.misalignment.count as u128, den: turns as u128 }
    }
}

/// Signals of the execution layer.
#[derive(Debug)]
pub struct ExecutionSignals {
    pub failure: SignalGroup,
    pub loops: SignalGroup,
}

/// What an [`ExecutionSignals`] says.
#[verifier::ext_equal]
pub struct ExecutionFacts {
    pub failure: GroupFacts,
    pub loops: GroupFacts,
}

impl View for ExecutionSignals {
    type V = ExecutionFacts;

    open spec fn view(&self) -> ExecutionFacts {
        ExecutionFacts { failure: self.failure@, loops: self.loops@ }
    }
}

impl Clone for ExecutionSignals {
    fn clone(&self) -> (r: Self)
        ensures
            r@ == self@,
    {
        ExecutionSignals { failure: self.failure.clone(), loops: self.loops.clone() }
    }
}

impl Default for ExecutionSignals {
    fn default() -> (r: Self)
        ensures
            r@ == quiet_report().execution,
    {
        ExecutionSignals { failure: SignalGroup::new("failure"), loops: SignalGroup::new("loops") }
    }
}

/// Signals of the environment layer.
#[derive(Debug)]
pub struct EnvironmentSignals {
    pub exhaustion: SignalGroup,
}

/// What an [`EnvironmentSignals`] says.
#[verifier::ext_equal]
pub struct EnvironmentFacts {
    pub exhaustion: GroupFacts,
}

impl View for EnvironmentSignals {
    type V = EnvironmentFacts;

    open spec fn view(&self) -> EnvironmentFacts {
        EnvironmentFacts { exhaustion: self.exhaustion@ }
    }
}

impl Clone for EnvironmentSignals {
    fn clone(&self) -> (r: Self)
        ensures
            r@ == self@,
    {
        EnvironmentSignals { exhaustion: self.exhaustion.clone() }
    }
}

impl Default for EnvironmentSignals {
    fn default() -> (r: Self)
        ensures
            r@ == quiet_report().environment,
    {
        EnvironmentSignals { exhaustion: SignalGroup::new("exhaustion") }
    }
}

/// Complete signal analysis report for a conversation.
#[derive(Debug)]
pub struct SignalReport {
    pub interaction: InteractionSignals,
    pub execution: ExecutionSignals,
    pub environment: EnvironmentSignals,
    pub overall_quality: InteractionQuality,
    /// Between 0 and 100.
    pub quality_score: u32,
    pub turn_metrics: TurnMetrics,
    pub summary: String,
}

/// What a [`SignalReport`] says.
#[verifier::ext_equal]
pub struct ReportFacts {
    pub interaction: InteractionFacts,
    pub execution: ExecutionFacts,
    pub environment: EnvironmentFacts,
    pub overall_quality: InteractionQuality,
    pub quality_score: int,
    pub turn_metrics: TurnMetrics,
    pub summary: Seq<char>,
}

impl View for SignalReport {
    type V = ReportFacts;

    open spec fn view(&self) -> ReportFacts {
        ReportFacts {
            interaction: self.interaction@,
            execution: self.execution@,
            environment: self.environment@,
            overall_quality: self.overall_quality,
            quality_score: self.quality_score as int,
            turn_metrics: self.turn_metrics,
            summary: self.summary@,
        }
    }
}

/// The report of a conversation nothing has been said of yet.
pub open spec fn quiet_report() -> ReportFacts {
    ReportFacts {
        interaction: InteractionFacts {
            misalignment: group_of("misalignment"@, Seq::empty()),
            stagnation: group_of("stagnation"@, Seq::empty()),
            disengagement: group_of("disengagement"@, Seq::empty()),
            satisfaction: group_of("satisfaction"@, Seq::empty()),
        },
        execution: ExecutionFacts {
            failure: group_of("failure"@, Seq::empty()),
            loops: group_of("loops"@, Seq::empty()),
        },
        environment: EnvironmentFacts { exhaustion: group_of("exhaustion"@, Seq::empty()) },
        overall_quality: InteractionQuality::Neutral,
        quality_score: 50,
        turn_metrics: no_turns(),
        summary: Seq::empty(),
    }
}

impl Clone for SignalReport {
    fn clone(&self) -> (r: Self)
        ensures
            r@ == self@,
    {
        SignalReport {
            interaction: self.interaction.clone(),
            execution: self.execution.clone(),
            environment: self.environment.clone(),
            overall_quality: self.overall_quality,
            quality_score: self.quality_score,
            turn_metrics: self.turn_metrics,
            summary: self.summary.clone(),
        }
    }
}

impl Default for SignalReport {
    fn default() -> (r: Self)
        ensures
            r@ == quiet_report(),
    {
        SignalReport {
            interaction: InteractionSignals::default(),
            execution: ExecutionSignals::default(),
            environment: EnvironmentSignals::default(),
            overall_quality: InteractionQuality::Neutral,
            quality_score: 50,
            turn_metrics: TurnMetrics::default(),
            summary: String::new(),
        }
    }
}

impl ReportFacts {
    /// Every signal of the report, layer by layer and group by group.
    pub open spec fn all_signals(self) -> Seq<SignalFacts> {
        self.interaction.misalignment.signals + self.interaction.stagnation.signals
            + self.interaction.disengagement.signals + self.interaction.satisfaction.signals
            + self.execution.failure.signals + self.execution.loops.signals
            + self.environment.exhaustion.signals
    }
}

/// The signals a sequence of references points to.
pub open spec fn signal_refs(v: Seq<&SignalInstance>) -> Seq<SignalFacts> {
    Seq::new(v.len(), |i: int| v[i]@)
}

fn append_refs<'a>(v: &mut Vec<&'a SignalInstance>, group: &'a SignalGroup)
    ensures
        signal_refs(final(v)@) == signal_refs(old(v)@) + group@.signals,
{
    let ghost before = v@;
    let mut i: usize = 0;
    while i < group.signals.len()
        invariant
            i <= group.signals.len(),
            v@.len() == before.len() + i,
            forall|j: int| 0 <= j < before.len() ==> (#[trigger] v@[j]) == before[j],
            forall|j: int|
                before.len() <= j < before.len() + i ==> (#[trigger] v@[j])@ == group.signals@[j
                    - before.len()]@,
        decreases group.signals.len() - i,
    {
        v.push(&group.signals[i]);
        i += 1;
    }
    assert(signal_refs(v@) =~= signal_refs(before) + group@.signals);
}

impl SignalReport {
    /// Every `SignalInstance` across all layers and groups.
    pub fn iter_signals(&self) -> (r: Vec<&SignalInstance>)
        ensures
            signal_refs(r@) == self@.all_signals(),
    {
        let mut r: Vec<&SignalInstance> = Vec::new();
        assert(signal_refs(r@) =~= Seq::empty());
        append_refs(&mut r, &self.interaction.misalignment);
        append_refs(&mut r, &self.interaction.stagnation);
        append_refs(&mut r, &self.interaction.disengagement);
        append_refs(&mut r, &self.interaction.satisfaction);
        append_refs(&mut r, &self.execution.failure);
        append_refs(&mut r, &self.execution.loops);
        append_refs(&mut r, &self.environment.exhaustion);
        assert(signal_refs(r@) =~= self@.all_signals());
        r
    }

    /// Whether some signal of the report has type `t`.
    pub fn has_signal_type(&self, t: SignalType) -> (b: bool)
        ensures
            b == exists|i: int|
                0 <= i < self@.all_signals().len() && (#[trigger] self@.all_signals()[i]).signal_type
                    == t,
    {
        let all: Vec<&SignalInstance> = self.iter_signals();
        let mut i: usize = 0;
        while i < all.len()
            invariant
                i <= all.len(),
                signal_refs(all@) == self@.all_signals(),
                forall|j: int|
                    0 <= j < i ==> (#[trigger] self@.all_signals()[j]).signal_type != t,
            decreases all.len() - i,
        {
            assert(self@.all_signals()[i as int] == all@[i as int]@);
            if all[i].signal_type == t {
                return true;
            }
            i += 1;
        }
        false
    }
}

/// The grade of one message within its conversation.
#[derive(Debug)]
pub struct MessageReport {
    pub role: String,
    pub content: String,
    pub quality: String,
    pub score: u32,
    pub label: String,
    pub signal_class: Option<String>,
    pub signal_type: Option<String>,
    pub matched: Option<String>,
}

/// What a [`MessageReport`] says.
#[verifier::ext_equal]
pub struct MessageReportFacts {
    pub role: Seq<char>,
    pub content: Seq<char>,
    pub quality: Seq<char>,
    pub score: int,
    pub label: Seq<char>,
    pub signal_class: Option<Seq<char>>,
    pub signal_type: Option<Seq<char>>,
    pub matched: Option<Seq<char>>,
}

/// The text of an optional string.
pub open spec fn opt_text(s: Option<String>) -> Option<Seq<char>> {
    match s {
        Some(t) => Some(t@),
        None => None,
    }
}

impl View for MessageReport {
    type V = MessageReportFacts;

    open spec fn view(&self) -> MessageReportFacts {
        MessageReportFacts {
            role: self.role@,
            content: self.content@,
            quality: self.quality@,
            score: self.score as int,
            label: self.label@,
            signal_class: opt_text(self.signal_class),
            signal_type: opt_text(self.signal_type),
            matched: opt_text(self.matched),
        }
    }
}

} // verus!
