//! Cache-regret cost limit for session stickiness.
//!
//! When a session re-route is already being considered (stale pin or prefix drift)
//! and the previously-pinned model's provider prompt cache is plausibly still warm,
//! switching models forces the new model to re-ingest the full context at its
//! uncached input rate. The *regret* of that switch is the input-cost delta:
//!
//! ```text
//! regret = context_tokens x (candidate_uncached_input - previous_cached_input)
//! ```
//!
//! The limit is deliberately input-only: output-token savings are unknowable before
//! the response is generated (reasoning models can emit 5-10x the tokens for the
//! same task), so they are never credited against the regret. Negative regret — the
//! candidate's uncached input rate undercuts the previous model's cached rate —
//! always allows the switch. Positive regret is compared against the
//! developer-defined threshold.
//!
//! Quality and cost stay separate: the router decides *which* model is better, this
//! limit only decides whether the switch is *affordable*.

use crate::natural::{Natural, Ratio};
use crate::router::orchestrator::{switch_cost_in_usd, SwitchCost};
use crate::session_cache::{CachedRoute, PinFacts};
use crate::text::same_text;
use vstd::prelude::*;

verus! {

/// Whether the cost limit applies to a proposed switch.
pub open spec fn is_gated(previous: PinFacts, prefix_drifted: bool, candidate: Seq<char>) -> bool {
    previous.observed_cache_hit && !prefix_drifted && previous.model_name != candidate
}

/// Whether the cost limit applies to a proposed switch away from `previous`.
///
/// The limit only fires when there is a warm cache worth protecting:
/// * the previous pin has actually observed cache activity (`observed_cache_hit`) —
///   a pin that never produced a hit has nothing to lose, and
/// * the prompt prefix has NOT drifted — a drifted prefix means the provider cache
///   is already cold, so switching is free, and
/// * the router actually proposed a different model.
pub fn gate_applies(previous: &CachedRoute, prefix_drifted: bool, candidate_model: &str) -> (b: bool)
    ensures
        b == is_gated(previous@, prefix_drifted, candidate_model@),
{
    previous.observed_cache_hit && !prefix_drifted && !same_text(
        previous.model_name.as_str(),
        candidate_model,
    )
}

/// How much regret a developer accepts.
#[derive(Debug, Clone, Copy, PartialEq, Eq, Structural)]
pub enum SwitchCostThreshold {
    /// A fixed ceiling, in 10^-18 USD.
    MaxRegretUsd { value: u128 },
    /// A ceiling in percent of what staying on the warm model costs.
    MaxRegretPctOfCached { value: Ratio },
}

/// Outcome of the cost limit for a proposed model switch.
#[derive(Debug, Clone, Copy, PartialEq, Eq, Structural)]
pub enum SwitchDecision {
    /// The switch is within the developer's cost policy (or is outright cheaper).
    Allow,
    /// The regret exceeds the threshold — keep the previously-pinned model.
    RetainPrevious,
}

/// Estimated regret for one proposed switch, for observability.
#[derive(Debug)]
pub struct SwitchEvaluation {
    pub decision: SwitchDecision,
    /// What both sides cost; the regret is the difference.
    pub regret: SwitchCost,
    /// The ceiling the regret was compared against is `threshold_num /
    /// threshold_den`, in 10^-18 USD.
    pub threshold_num: Natural,
    pub threshold_den: Natural,
}

/// The ceiling as a fraction, for what staying costs.
pub open spec fn ceiling(threshold: SwitchCostThreshold, baseline: nat) -> (nat, nat) {
    match threshold {
        SwitchCostThreshold::MaxRegretUsd { value } => (value as nat, 1),
        SwitchCostThreshold::MaxRegretPctOfCached { value } => (
            value.num as nat * baseline,
            100 * value.den as nat,
        ),
    }
}

/// The regret of a switch.
pub open spec fn regret_of(tokens: nat, previous_cached: nat, candidate_uncached: nat) -> int {
    tokens * (candidate_uncached - previous_cached)
}

/// Whether the regret of a switch is within the ceiling.
pub open spec fn affordable(
    threshold: SwitchCostThreshold,
    tokens: nat,
    previous_cached: nat,
    candidate_uncached: nat,
) -> bool {
    let (num, den) = ceiling(threshold, tokens * previous_cached);
    regret_of(tokens, previous_cached, candidate_uncached) * den <= num
}

/// Whether `r` is the evaluation of a switch.
pub open spec fn evaluation_fits(
    threshold: SwitchCostThreshold,
    tokens: nat,
    previous_cached: nat,
    candidate_uncached: nat,
    r: SwitchEvaluation,
) -> bool {
    &&& r.decision == (if affordable(threshold, tokens, previous_cached, candidate_uncached) {
        SwitchDecision::Allow
    } else {
        SwitchDecision::RetainPrevious
    })
    &&& r.regret@.delta() == regret_of(tokens, previous_cached, candidate_uncached)
    &&& r.regret@.anchor == tokens * previous_cached
    &&& (r.threshold_num@, r.threshold_den@) == ceiling(threshold, tokens * previous_cached)
}

/// Evaluate whether abandoning a plausibly-warm cache for `candidate` is within the
/// developer's cost policy. Rates are prices of one token in 10^-18 USD.
///
/// * `previous_cached_rate` — the pinned model's cached (prompt-cache read) input rate.
/// * `candidate_uncached_rate` — the candidate's full input rate (it starts cold).
pub fn evaluate_switch(
    threshold: &SwitchCostThreshold,
    est_context_tokens: u64,
    previous_cached_rate: &Natural,
    candidate_uncached_rate: &Natural,
) -> (r: SwitchEvaluation)
    ensures
        evaluation_fits(
            *threshold,
            est_context_tokens as nat,
            previous_cached_rate@,
            candidate_uncached_rate@,
            r,
        ),
{
    // The anchor's side is the cost to stay: re-reading the context on the
    // warm model at its cached rate.
    let regret: SwitchCost = switch_cost_in_usd(
        est_context_tokens,
        previous_cached_rate,
        candidate_uncached_rate,
    );
    let (threshold_num, threshold_den) = match threshold {
        SwitchCostThreshold::MaxRegretUsd { value } => (Natural::new(*value), Natural::new(1)),
        SwitchCostThreshold::MaxRegretPctOfCached { value } => (
            Natural::new(value.num).times(&regret.anchor),
            Natural::new(100).times(&Natural::new(value.den)),
        ),
    };
    let lhs: Natural = regret.candidate.times(&threshold_den);
    let rhs: Natural = regret.anchor.times(&threshold_den).plus(&threshold_num);
    proof {
        let c = regret.candidate@ as int;
        let a = regret.anchor@ as int;
        let d = threshold_den@ as int;
        assert((c - a) * d == c * d - a * d) by (nonlinear_arith);
    }
    let decision: SwitchDecision = if rhs.at_least(&lhs) {
        SwitchDecision::Allow
    } else {
        SwitchDecision::RetainPrevious
    };
    SwitchEvaluation { decision, regret, threshold_num, threshold_den }
}

/// A switch that costs nothing or saves money is within every ceiling.
pub proof fn cheaper_switch_is_always_allowed(
    threshold: SwitchCostThreshold,
    tokens: nat,
    previous_cached: nat,
    candidate_uncached: nat,
)
    requires
        candidate_uncached <= previous_cached,
    ensures
        affordable(threshold, tokens, previous_cached, candidate_uncached),
{
    let (num, den) = ceiling(threshold, tokens * previous_cached);
    let gap = candidate_uncached - previous_cached;
    assert(tokens * gap <= 0) by (nonlinear_arith)
        requires
            gap <= 0,
            tokens >= 0,
    ;
    assert((tokens * gap) * den <= 0) by (nonlinear_arith)
        requires
            tokens * gap <= 0,
            den >= 0,
    ;
    match threshold {
        SwitchCostThreshold::MaxRegretUsd { value } => {},
        SwitchCostThreshold::MaxRegretPctOfCached { value } => {
            let v = value.num as nat;
            let b = tokens * previous_cached;
            assert(v * b >= 0) by (nonlinear_arith)
                requires
                    v >= 0,
                    b >= 0,
            ;
        },
    }
}

/// A relative policy admits the same switch whatever the size of the
/// context: regret and baseline both scale linearly with tokens.
pub proof fn relative_policy_ignores_context_size(
    value: Ratio,
    few: nat,
    many: nat,
    previous_cached: nat,
    candidate_uncached: nat,
)
    requires
        few > 0,
        many > 0,
    ensures
        ({
            let t = SwitchCostThreshold::MaxRegretPctOfCached { value };
            affordable(t, few, previous_cached, candidate_uncached) == affordable(
                t,
                many,
                previous_cached,
                candidate_uncached,
            )
        }),
{
    let gap = candidate_uncached - previous_cached;
    let d = 100 * value.den as nat;
    let v = value.num as nat;
    lemma_scale(few, gap, d, v, previous_cached);
    lemma_scale(many, gap, d, v, previous_cached);
}

proof fn lemma_scale(tokens: nat, gap: int, d: nat, v: nat, p: nat)
    requires
        tokens > 0,
    ensures
        ((tokens * gap) * d <= v * (tokens * p)) == (gap * d <= v * p),
{
    let l = gap * d;
    let r = (v * p) as int;
    assert((tokens * gap) * d == tokens * l) by (nonlinear_arith)
        requires
            l == gap * d,
    ;
    assert(v * (tokens * p) == tokens * r) by (nonlinear_arith)
        requires
            r == v * p,
    ;
    assert((tokens * l <= tokens * r) == (l <= r)) by (nonlinear_arith)
        requires
            tokens > 0,
    ;
}

/// Raising a fixed ceiling never forbids a switch that was allowed.
pub proof fn higher_ceiling_allows_no_less(
    low: u128,
    high: u128,
    tokens: nat,
    previous_cached: nat,
    candidate_uncached: nat,
)
    requires
        low <= high,
        affordable(
            SwitchCostThreshold::MaxRegretUsd { value: low },
            tokens,
            previous_cached,
            candidate_uncached,
        ),
    ensures
        affordable(
            SwitchCostThreshold::MaxRegretUsd { value: high },
            tokens,
            previous_cached,
            candidate_uncached,
        ),
{
}

/// A fixed ceiling allows a switch exactly where reading the context in full
/// on the candidate costs at most that much more than reading it from the
/// previous model's cache.
pub proof fn fixed_ceiling_bounds_the_extra_cost(
    value: u128,
    tokens: nat,
    previous_cached: nat,
    candidate_uncached: nat,
)
    ensures
        affordable(
            SwitchCostThreshold::MaxRegretUsd { value },
            tokens,
            previous_cached,
            candidate_uncached,
        ) == (tokens * candidate_uncached <= tokens * previous_cached + value),
{
    let t = tokens as int;
    let c = candidate_uncached as int;
    let p = previous_cached as int;
    assert(t * (c - p) == t * c - t * p) by (nonlinear_arith);
}

/// A relative ceiling allows a switch exactly where the candidate's price of
/// a token exceeds that of the previous model's cache by at most that many
/// percent of it.
pub proof fn relative_ceiling_bounds_the_price_ratio(
    value: Ratio,
    tokens: nat,
    previous_cached: nat,
    candidate_uncached: nat,
)
    requires
        tokens > 0,
    ensures
        affordable(
            SwitchCostThreshold::MaxRegretPctOfCached { value },
            tokens,
            previous_cached,
            candidate_uncached,
        ) == (100 * value.den * candidate_uncached <= (100 * value.den + value.num)
            * previous_cached),
{
    let d = 100 * value.den as nat;
    let v = value.num as nat;
    let c = candidate_uncached as int;
    let p = previous_cached as int;
    lemma_scale(tokens, c - p, d, v, previous_cached);
    assert((c - p) * d == d * c - d * p) by (nonlinear_arith);
    assert((d + v) * p == d * p + v * p) by (nonlinear_arith);
}

/// The limit protects a cache that was seen to work, for the prompt it was
/// seen with, against another model, and nothing else.
pub proof fn only_a_working_cache_is_protected(
    previous: PinFacts,
    drifted: bool,
    candidate: Seq<char>,
)
    ensures
        is_gated(previous, drifted, candidate) ==> previous.observed_cache_hit && !drifted,
        !is_gated(previous, drifted, previous.model_name),
        previous.observed_cache_hit && previous.model_name != candidate ==> is_gated(
            previous,
            false,
            candidate,
        ),
{
}

/// A fixed ceiling lets a switch through exactly where reading the context
/// costs at most that much more on the candidate, and the evaluation tells
/// what it costs on either side.
pub proof fn evaluation_tells_both_sides(
    value: u128,
    tokens: nat,
    previous_cached: nat,
    candidate_uncached: nat,
    r: SwitchEvaluation,
)
    requires
        evaluation_fits(
            SwitchCostThreshold::MaxRegretUsd { value },
            tokens,
            previous_cached,
            candidate_uncached,
            r,
        ),
    ensures
        r.regret@.candidate == tokens * candidate_uncached,
        r.regret@.anchor == tokens * previous_cached,
        r.decision == SwitchDecision::Allow <==> tokens * candidate_uncached <= tokens
            * previous_cached + value,
        r.threshold_num@ == value,
        r.threshold_den@ == 1,
{
    let t = tokens as int;
    let c = candidate_uncached as int;
    let p = previous_cached as int;
    assert(t * (c - p) == t * c - t * p) by (nonlinear_arith);
}

} // verus!
