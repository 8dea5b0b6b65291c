//! Session-stickiness handling for the LLM path.
//!
//! This module owns the "keep a conversation on the same model" concern, grouped in
//! one place for readability:
//!
//! * [`resolve_session`] — derive the session key (explicit header > implicit prompt
//!   prefix hash) and the prefix hash used for cluster-level replica stickiness.
//! * [`lookup_session_pin`] — classify a pin as usable, a stale hint, or
//!   drifted (prefix changed → provider cache already cold).
//! * [`apply_cache_regret_gate`] — when a re-route is being considered, veto a switch
//!   whose input-cost regret exceeds the developer's threshold (the cost math lives in
//!   [`crate::router::cache_regret`]).
//! * [`plan_pin_after_routing`] — decide the response-side pin action.

use crate::affinity::{affinity_of, tenant_text, tool_texts};
use crate::assoc::{find_named, named};
use crate::chat::Message;
use crate::handlers::llm::session_router;
use crate::handlers::llm::session_router::{drifted, road_not_taken};
use crate::router::cache_regret::{
    affordable, ceiling, evaluate_switch, gate_applies, regret_of, SwitchCostThreshold,
    SwitchDecision, SwitchEvaluation,
};
use crate::router::model_metrics::ModelPricing;
use crate::router::orchestrator::opt_str;
use crate::session_cache::{clone_opt, CacheLookup, CachedRoute, PinFacts};
use crate::signals::schemas::opt_text;
use vstd::prelude::*;

verus! {

/// Resolved session identity for one request.
#[derive(Debug)]
pub struct SessionResolution {
    /// Stable prefix hash (system + tools), independent of
    /// whether prompt caching is enabled. `None` when the request opted out or has
    /// no anchorable prompt.
    pub request_prefix_hash: Option<u64>,
    /// Session key: the explicit affinity value, or the implicit prefix
    /// hash key when implicit pinning is active.
    pub session_id: Option<String>,
    /// True when the session was derived implicitly (pin-after-hit applies).
    pub is_implicit_session: bool,
}

/// The prompt-caching settings of a scope.
#[derive(Debug, Clone, Copy, PartialEq, Eq, Structural)]
pub struct PromptCaching {
    pub enabled: bool,
    pub session_affinity: bool,
    pub session_ttl_seconds: Option<u64>,
}

/// The stickiness settings of a scope.
#[derive(Debug, Clone, Copy, PartialEq, Eq, Structural)]
pub struct SessionStickiness {
    pub switch_cost: SwitchCostThreshold,
    /// Cached-read rate assumed where none is published, in millionths of the input rate.
    pub cache_read_discount: u64,
    pub record_counterfactual: bool,
}

/// Outcome of a session-pin lookup.
#[derive(Debug)]
pub struct PinLookup {
    /// A warm, non-drifted pin that should short-circuit routing.
    pub pinned_route: Option<CachedRoute>,
    /// An expired or drifted pin, retained only so the cache-regret limit can weigh
    /// the cost of abandoning a plausibly-warm provider cache.
    pub previous_route: Option<CachedRoute>,
    /// Whether the previous pin's stored prefix hash no longer matches (cache cold).
    pub previous_prefix_drifted: bool,
}

/// Estimate the request's context size in tokens for the cost of a switch.
/// Precision is not critical — the estimate only feeds a threshold
/// comparison, and both sides of the regret formula scale with the same number.
pub fn estimate_context_tokens(messages: &[Message], counted: Option<u64>) -> (r: u64)
    ensures
        r == session_router::tokens_of(messages@, counted),
{
    session_router::actual_context_tokens(messages, counted)
}

/// Resolve the session key and prefix hash from the request. An explicit affinity
/// header always pins; implicit pinning is gated on session affinity. The prefix hash
/// is derived even when caching is off (only an opted-out request or an unanchorable
/// prompt suppresses it).
pub fn resolve_session(
    explicit_session_id: Option<String>,
    messages: &[Message],
    tool_names: Option<&[String]>,
    tenant_id: Option<&str>,
    prompt_caching: &PromptCaching,
    cache_off_for_request: bool,
) -> (r: SessionResolution)
    ensures
        session_router::resolution_fits(
            opt_text(explicit_session_id),
            affinity_of(messages@, tool_texts(tool_names), tenant_text(tenant_id)),
            prompt_caching.session_affinity,
            cache_off_for_request,
            r.request_prefix_hash,
            opt_text(r.session_id),
        ),
        r.is_implicit_session == (explicit_session_id is None && r.session_id is Some),
{
    let is_explicit: bool = explicit_session_id.is_some();
    let r: session_router::SessionResolution = session_router::resolve_session(
        explicit_session_id,
        messages,
        tool_names,
        tenant_id,
        prompt_caching.session_affinity,
        cache_off_for_request,
    );
    let is_implicit_session: bool = !is_explicit && r.session_id.is_some();
    SessionResolution {
        request_prefix_hash: r.request_prefix_hash,
        session_id: r.session_id,
        is_implicit_session,
    }
}

/// Whether a lookup classifies the pin that was found.
pub open spec fn pin_lookup_fits(
    r: PinLookup,
    found: Option<CacheLookup>,
    request_prefix_hash: Option<u64>,
) -> bool {
    match found {
        None => r.pinned_route is None && r.previous_route is None && !r.previous_prefix_drifted,
        Some(lookup) => {
            let drift = drifted(lookup.route.prefix_hash, request_prefix_hash);
            &&& r.previous_prefix_drifted == drift
            &&& if lookup.is_stale || drift {
                r.pinned_route is None && r.previous_route == Some(lookup.route)
            } else {
                r.pinned_route == Some(lookup.route) && r.previous_route is None
            }
        },
    }
}

/// Classify the pin that was found for a session. Logically-expired pins never
/// short-circuit routing, but they (and prefix-drifted pins) are returned as
/// `previous_route` so the cache-regret limit can reason about the switch cost.
pub fn lookup_session_pin(
    found: Option<CacheLookup>,
    request_prefix_hash: Option<u64>,
) -> (r: PinLookup)
    ensures
        pin_lookup_fits(r, found, request_prefix_hash),
{
    let lookup: CacheLookup = match found {
        Some(l) => l,
        None => {
            return PinLookup {
                pinned_route: None,
                previous_route: None,
                previous_prefix_drifted: false,
            };
        },
    };
    // Prefix drift is independent of staleness: a stored prefix hash that no longer
    // matches means the provider cache is already cold, so the regret limit must not
    // treat the previous pin as plausibly warm.
    let drift: bool = match (lookup.route.prefix_hash, request_prefix_hash) {
        (Some(stored), Some(current)) => stored != current,
        _ => false,
    };
    if lookup.is_stale || drift {
        PinLookup {
            pinned_route: None,
            previous_route: Some(lookup.route),
            previous_prefix_drifted: drift,
        }
    } else {
        PinLookup {
            pinned_route: Some(lookup.route),
            previous_route: None,
            previous_prefix_drifted: false,
        }
    }
}

/// The rates that the limit weighs: the previous model's cached one and the
/// candidate's uncached one. `None` where the limit does not apply, or where
/// pricing is missing and the regret is unknowable.
pub open spec fn weighed(
    stickiness: Option<SessionStickiness>,
    previous: Option<PinFacts>,
    previous_prefix_drifted: bool,
    prices: Seq<(String, ModelPricing)>,
    candidate: Seq<char>,
) -> Option<(nat, nat)> {
    match (stickiness, previous) {
        (Some(s), Some(p)) => if p.observed_cache_hit && !previous_prefix_drifted && p.model_name
            != candidate {
            match (named(prices, p.model_name), named(prices, candidate)) {
                (Some(prev), Some(cand)) => Some(
                    (prev.cached_rate(s.cache_read_discount), cand.uncached_rate()),
                ),
                _ => None,
            }
        } else {
            None
        },
        _ => None,
    }
}

/// Whether the limit keeps the previous model.
pub open spec fn gate_retains(
    stickiness: Option<SessionStickiness>,
    previous: Option<PinFacts>,
    previous_prefix_drifted: bool,
    est_context_tokens: u64,
    prices: Seq<(String, ModelPricing)>,
    candidate: Seq<char>,
) -> bool {
    match weighed(stickiness, previous, previous_prefix_drifted, prices, candidate) {
        Some((prev, cand)) => !affordable(
            stickiness->0.switch_cost,
            est_context_tokens as nat,
            prev,
            cand,
        ),
        None => false,
    }
}

/// The pin behind an optional reference.
pub open spec fn opt_pin(p: Option<&CachedRoute>) -> Option<PinFacts> {
    match p {
        Some(p) => Some(p@),
        None => None,
    }
}

/// What the limit did with a proposed switch.
#[derive(Debug)]
pub struct GateOutcome {
    /// Whether the previous model was retained, and with it its warm state.
    pub retained: bool,
    /// The costs that were weighed, where the limit applied and prices were known.
    pub evaluation: Option<SwitchEvaluation>,
    /// The route not taken, where it is to be recorded.
    pub counterfactual: Option<String>,
}

/// Whether an outcome is that of weighing a switch to a model and its route,
/// and `after` the model and the route that are left.
pub open spec fn gate_outcome_fits(
    r: GateOutcome,
    stickiness: Option<SessionStickiness>,
    previous: Option<PinFacts>,
    previous_prefix_drifted: bool,
    est_context_tokens: u64,
    prices: Seq<(String, ModelPricing)>,
    before: (Seq<char>, Option<Seq<char>>),
    after: (Seq<char>, Option<Seq<char>>),
) -> bool {
    let (candidate, route) = before;
    let retains = gate_retains(
        stickiness,
        previous,
        previous_prefix_drifted,
        est_context_tokens,
        prices,
        candidate,
    );
    let rates = weighed(stickiness, previous, previous_prefix_drifted, prices, candidate);
    &&& r.retained == retains
    &&& after == if retains {
        (previous->0.model_name, previous->0.route_name)
    } else {
        before
    }
    &&& match r.evaluation {
        Some(e) => {
            &&& rates is Some
            &&& e.regret@.delta() == regret_of(
                est_context_tokens as nat,
                (rates->0).0,
                (rates->0).1,
            )
            &&& (e.threshold_num@, e.threshold_den@) == ceiling(
                stickiness->0.switch_cost,
                est_context_tokens as nat * (rates->0).0,
            )
            &&& (e.decision == SwitchDecision::RetainPrevious) == retains
        },
        None => rates is None,
    }
    &&& opt_text(r.counterfactual) == if retains && stickiness->0.record_counterfactual {
        Some(road_not_taken(candidate, route))
    } else {
        None
    }
}

/// Cache-regret limit: the router has proposed a model, but if the previous pin's
/// provider cache is plausibly still warm, abandoning it forces the candidate to
/// re-ingest the full context at its uncached input rate. Only switch when that
/// regret is within the developer's threshold; otherwise retain the previous model by
/// mutating `model`/`route_name` in place. Quality and cost stay separate — the limit
/// never picks a "better" model, it only vetoes an unaffordable switch.
///
/// The outcome says whether the retained model's warm state must be preserved on re-pin.
pub fn apply_cache_regret_gate(
    stickiness: Option<SessionStickiness>,
    previous_route: Option<&CachedRoute>,
    previous_prefix_drifted: bool,
    est_context_tokens: u64,
    prices: &Vec<(String, ModelPricing)>,
    model: &mut String,
    route_name: &mut Option<String>,
) -> (r: GateOutcome)
    ensures
        gate_outcome_fits(
            r,
            stickiness,
            opt_pin(previous_route),
            previous_prefix_drifted,
            est_context_tokens,
            prices@,
            (old(model)@, opt_text(*old(route_name))),
            (final(model)@, opt_text(*final(route_name))),
        ),
{
    let no_gate: GateOutcome = GateOutcome {
        retained: false,
        evaluation: None,
        counterfactual: None,
    };
    let settings: SessionStickiness = match stickiness {
        Some(s) => s,
        None => {
            return no_gate;
        },
    };
    let previous: &CachedRoute = match previous_route {
        Some(p) => p,
        None => {
            return no_gate;
        },
    };
    if !gate_applies(previous, previous_prefix_drifted, model.as_str()) {
        return no_gate;
    }
    // Without pricing for both sides the regret is unknowable — fail open (switch
    // freely) rather than silently overriding the router on guesswork.
    let prev_rates: &ModelPricing = match find_named(prices, previous.model_name.as_str()) {
        Some(p) => p,
        None => {
            return no_gate;
        },
    };
    let cand_rates: &ModelPricing = match find_named(prices, model.as_str()) {
        Some(p) => p,
        None => {
            return no_gate;
        },
    };
    let evaluation: SwitchEvaluation = evaluate_switch(
        &settings.switch_cost,
        est_context_tokens,
        &prev_rates.cached_input_rate(settings.cache_read_discount),
        &cand_rates.uncached_input_rate(),
    );
    match evaluation.decision {
        SwitchDecision::Allow => GateOutcome {
            retained: false,
            evaluation: Some(evaluation),
            counterfactual: None,
        },
        SwitchDecision::RetainPrevious => {
            let counterfactual: Option<String> = if settings.record_counterfactual {
                let route: Option<&str> = match &*route_name {
                    Some(rn) => Some(rn.as_str()),
                    None => None,
                };
                Some(session_router::describe_route(model.as_str(), route))
            } else {
                None
            };
            *model = previous.model_name.clone();
            *route_name = clone_opt(&previous.route_name);
            GateOutcome { retained: true, evaluation: Some(evaluation), counterfactual }
        },
    }
}

/// What the response side does with the session's pin.
#[derive(Debug, Clone, Copy, PartialEq, Eq, Structural)]
pub enum PinAction {
    /// Pin once the response proves cache activity.
    CommitOnCacheActivity,
    /// Refresh the pin that stands.
    Refresh { previously_observed_hit: bool },
}

/// The pin to store now, for how many seconds, and what the response side does.
#[derive(Debug)]
pub struct PinPlan {
    pub store: Option<CachedRoute>,
    pub ttl_seconds: Option<u64>,
    pub action: Option<PinAction>,
}

/// Whether a plan is the one for a session and the pin it would get.
pub open spec fn pin_plan_fits(
    r: PinPlan,
    caching: PromptCaching,
    has_session: bool,
    is_implicit: bool,
    pin: PinFacts,
) -> bool {
    if !caching.enabled || !has_session {
        r.store is None && r.action is None && r.ttl_seconds is None
    } else if is_implicit {
        &&& r.store is None
        &&& r.ttl_seconds is None
        &&& r.action == Some(PinAction::CommitOnCacheActivity)
    } else {
        &&& r.store is Some
        &&& r.store->0@ == pin
        &&& r.ttl_seconds == caching.session_ttl_seconds
        &&& r.action == Some(
            PinAction::Refresh { previously_observed_hit: pin.observed_cache_hit },
        )
    }
}

/// Decide the response-side pin action after routing resolves the final model.
/// Implicit sessions defer their pin until the response proves cache activity
/// (pin-after-hit); explicit sessions pin immediately (refreshing on later turns).
/// There is no action when caching is off or there is no session to pin.
pub fn plan_pin_after_routing(
    prompt_caching: &PromptCaching,
    session_id: Option<&str>,
    is_implicit_session: bool,
    model: &str,
    route_name: Option<&str>,
    request_prefix_hash: Option<u64>,
    retained_previous_observed_hit: bool,
) -> (r: PinPlan)
    ensures
        pin_plan_fits(
            r,
            *prompt_caching,
            session_id is Some,
            is_implicit_session,
            PinFacts {
                model_name: model@,
                route_name: opt_str(route_name),
                prefix_hash: request_prefix_hash,
                observed_cache_hit: retained_previous_observed_hit,
            },
        ),
{
    if !prompt_caching.enabled || session_id.is_none() {
        return PinPlan { store: None, ttl_seconds: None, action: None };
    }
    if is_implicit_session {
        // Pin-after-hit: defer the pin until the response proves the workload
        // actually benefits from caching.
        return PinPlan {
            store: None,
            ttl_seconds: None,
            action: Some(PinAction::CommitOnCacheActivity),
        };
    }
    // When the limit retained a warm previous model, its observed-hit state is carried
    // forward so the pin stays warm rather than resetting to cold.
    let route: CachedRoute = CachedRoute {
        model_name: model.to_owned(),
        route_name: session_router::to_opt_string(route_name),
        prefix_hash: request_prefix_hash,
        observed_cache_hit: retained_previous_observed_hit,
    };
    PinPlan {
        store: Some(route),
        ttl_seconds: prompt_caching.session_ttl_seconds,
        action: Some(
            PinAction::Refresh { previously_observed_hit: retained_previous_observed_hit },
        ),
    }
}

/// The limit never picks a model of its own: afterwards the model is the
/// router's candidate, or the previous pin's model where the cache was warm.
pub proof fn gate_only_vetoes(
    stickiness: Option<SessionStickiness>,
    previous: Option<PinFacts>,
    previous_prefix_drifted: bool,
    est_context_tokens: u64,
    prices: Seq<(String, ModelPricing)>,
    candidate: Seq<char>,
)
    requires
        gate_retains(
            stickiness,
            previous,
            previous_prefix_drifted,
            est_context_tokens,
            prices,
            candidate,
        ),
    ensures
        previous is Some,
        previous->0.observed_cache_hit,
        previous->0.model_name != candidate,
        !previous_prefix_drifted,
{
}

} // verus!
