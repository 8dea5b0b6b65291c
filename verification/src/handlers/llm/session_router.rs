//! Session-cache-aware routing.
//!
//! Routing itself stays cache-blind: the quality router still picks a
//! candidate model for every request. This module then decides whether to *honor*
//! that candidate or stick to the session's warm anchor, based on:
//!
//! * **Cache warmth** — inferred structurally from how long ago the session was last
//!   used vs. the provider's cache window, so it works on the decision path with no
//!   provider response in hand.
//! * **A cumulative per-session overhead cap** — a paid switch (the candidate must
//!   re-ingest the context at its uncached rate) is allowed only while total switch
//!   spend stays within `max_overhead_pct`% of the session's running *never-switch*
//!   baseline (what staying on the session's `default_model` would have cost — priced
//!   independently of the current anchor, which drifts as switches happen). An
//!   outright-cheaper switch is free but never reduces that spend. The promise: this
//!   conversation bills at most `max_overhead_pct`% above never-switching.
//!
//! The default posture is to stick. Quality and cost stay separate: the router decides
//! whether a switch *improves quality*; the overhead cap decides whether it is *affordable*.

use crate::affinity::{
    affinity_of, derive_implicit_affinity, tenant_text, tool_texts, ImplicitAffinity,
};
use crate::assoc::{find_named, named};
use crate::chat::{content_text, Message};
use crate::expiring_map::{is_oldest, Stamped};
use crate::metrics::labels::{
    SWITCH_DECISION_ALLOWED, SWITCH_DECISION_RETAINED, SWITCH_REASON_FREE,
    SWITCH_REASON_NO_PRICING, SWITCH_REASON_OVER_CAP, SWITCH_REASON_SAME_ANCHOR,
    SWITCH_REASON_WITHIN_CAP,
};
use crate::natural::{Natural, Ratio};
use crate::router::model_metrics::ModelPricing;
use crate::router::orchestrator::{
    cached_read_cost_in_usd, estimate_switch_cost_in_usd, estimated_switch, key_of, opt_str,
    read_cost, session_key, CostFacts, SwitchCost,
};
use crate::session_cache::memory::MemorySessionCache;
use crate::session_cache::{
    clone_history, clone_opt, record_route_visit, visit_of, visited, visits, BindingFacts,
    RouteVisit, SessionBinding, VisitFacts,
};
use crate::signals::schemas::opt_text;
use crate::text::{
    byte_len, bytes_in, chars_of, concat3, find_char, first_index, join, joined, same_text,
    text_of, texts,
};
use vstd::prelude::*;
use vstd::string::StringExecFns;

verus! {

// ---------------------------------------------------------------------------
// Session identity
// ---------------------------------------------------------------------------

/// Resolved session identity for one request.
#[derive(Debug)]
pub struct SessionResolution {
    /// Stable prefix hash (system + tools), independent of whether
    /// prompt caching is enabled. `None` when the request opted out or has no anchorable prompt.
    pub request_prefix_hash: Option<u64>,
    /// Session key: the explicit affinity value, or the implicit prefix-hash
    /// key when implicit affinity is active. `None` when there is nothing to anchor to.
    pub session_id: Option<String>,
}

/// Whether a hash and a session key are those of a request, given the key and
/// the hash that its prompt gives.
pub open spec fn resolution_fits(
    named: Option<Seq<char>>,
    affinity: Option<(Seq<char>, u64)>,
    implicit_affinity_enabled: bool,
    cache_off: bool,
    hash: Option<u64>,
    session: Option<Seq<char>>,
) -> bool {
    let implicit = if cache_off { None } else { affinity };
    &&& hash == (match implicit {
        Some(a) => Some(a.1),
        None => None,
    })
    &&& session == (match named {
        Some(sid) => Some(sid),
        None => if implicit_affinity_enabled {
            match implicit {
                Some(a) => Some(a.0),
                None => None,
            }
        } else {
            None
        },
    })
}

/// Resolve the session key and prefix hash from the request. An explicit affinity
/// header always anchors; the implicit key is derived when `implicit_affinity_enabled`
/// is set. The prefix hash is derived regardless (only an opted-out request or an
/// unanchorable prompt suppresses it).
pub fn resolve_session(
    explicit_session_id: Option<String>,
    messages: &[Message],
    tool_names: Option<&[String]>,
    tenant_id: Option<&str>,
    implicit_affinity_enabled: bool,
    cache_off_for_request: bool,
) -> (r: SessionResolution)
    ensures
        resolution_fits(
            opt_text(explicit_session_id),
            affinity_of(messages@, tool_texts(tool_names), tenant_text(tenant_id)),
            implicit_affinity_enabled,
            cache_off_for_request,
            r.request_prefix_hash,
            opt_text(r.session_id),
        ),
{
    let implicit: Option<ImplicitAffinity> = if cache_off_for_request {
        None
    } else {
        derive_implicit_affinity(messages, tool_names, tenant_id)
    };
    let request_prefix_hash: Option<u64> = match &implicit {
        Some(a) => Some(a.prefix_hash),
        None => None,
    };
    let session_id: Option<String> = match explicit_session_id {
        Some(sid) => Some(sid),
        None => if implicit_affinity_enabled {
            match implicit {
                Some(a) => Some(a.session_key),
                None => None,
            }
        } else {
            None
        },
    };
    SessionResolution { request_prefix_hash, session_id }
}

// ---------------------------------------------------------------------------
// Provider cache windows
// ---------------------------------------------------------------------------

/// How long a provider keeps a prompt cache, in milliseconds.
#[derive(Debug, Clone, Copy, PartialEq, Eq, Structural)]
pub struct ProviderCacheCapability {
    pub idle_ttl: u64,
    pub hard_ttl: u64,
    pub extended_retention: bool,
    pub extended_ttl: u64,
}

/// The window assumed of a provider nothing is known of: five minutes idle,
/// one hour at most.
pub open spec fn default_capability() -> ProviderCacheCapability {
    ProviderCacheCapability {
        idle_ttl: 300_000,
        hard_ttl: 3_600_000,
        extended_retention: false,
        extended_ttl: 3_600_000,
    }
}

impl Default for ProviderCacheCapability {
    fn default() -> (r: Self)
        ensures
            r == default_capability(),
    {
        ProviderCacheCapability {
            idle_ttl: 300_000,
            hard_ttl: 3_600_000,
            extended_retention: false,
            extended_ttl: 3_600_000,
        }
    }
}

/// The provider in a provider-qualified model id: what stands before the
/// first slash, or all of it.
pub open spec fn provider_part(model: Seq<char>) -> Seq<char> {
    match first_index(model, '/') {
        Some(k) => model.take(k),
        None => model,
    }
}

/// The cache window of a model's provider.
pub open spec fn capability_of(
    known: Seq<(String, ProviderCacheCapability)>,
    model: Seq<char>,
) -> ProviderCacheCapability {
    match named(known, provider_part(model)) {
        Some(c) => c,
        None => default_capability(),
    }
}

/// Resolve a provider-qualified model id (e.g. `openai/gpt-4o`) to its cache window.
/// Unknown providers fall back to the conservative default.
pub fn capability_for_model(
    known: &Vec<(String, ProviderCacheCapability)>,
    model: &str,
) -> (r: ProviderCacheCapability)
    ensures
        r == capability_of(known@, model@),
{
    let chars: Vec<char> = chars_of(model);
    let provider: String = match find_char(&chars, '/') {
        Some(k) => text_of(&chars, 0, k),
        None => model.to_owned(),
    };
    assert(provider@ =~= provider_part(model@));
    match find_named(known, provider.as_str()) {
        Some(c) => *c,
        None => ProviderCacheCapability::default(),
    }
}

/// How long a binding on a model can sit idle before its cache is certainly cold.
pub open spec fn window_of(cap: ProviderCacheCapability) -> u64 {
    if cap.extended_retention {
        cap.extended_ttl
    } else if cap.idle_ttl <= cap.hard_ttl {
        cap.idle_ttl
    } else {
        cap.hard_ttl
    }
}

/// How long a binding on this model can sit idle before its cache is certainly cold.
pub fn warmth_window(cap: &ProviderCacheCapability) -> (r: u64)
    ensures
        r == window_of(*cap),
{
    if cap.extended_retention {
        cap.extended_ttl
    } else if cap.idle_ttl <= cap.hard_ttl {
        cap.idle_ttl
    } else {
        cap.hard_ttl
    }
}

/// The time since a binding was last used, 0 where that lies ahead.
pub open spec fn idle_time(last_used: u64, now: u64) -> u64 {
    if now >= last_used { (now - last_used) as u64 } else { 0 }
}

/// Whether the session's provider cache is plausibly still warm given how long ago it
/// was last used. Returns the warmth verdict and the measured idle gap.
pub fn warmth(binding: &SessionBinding, cap: &ProviderCacheCapability, now: u64) -> (r: (bool, u64))
    ensures
        r.1 == idle_time(binding@.last_used, now),
        r.0 == (r.1 <= window_of(*cap)),
{
    let idle: u64 = now.saturating_sub(binding.last_used);
    let warm: bool = if cap.extended_retention {
        idle <= cap.extended_ttl
    } else {
        idle <= cap.idle_ttl && idle <= cap.hard_ttl
    };
    (warm, idle)
}

/// Extra memory retention beyond the warmth window, so a still-warm binding is never
/// reclaimed out from under the router before it could plausibly go cold.
pub const GC_SLACK: u64 = 60_000;

/// How long a binding on a model is kept: the warmth window and the slack.
pub open spec fn retention(cap: ProviderCacheCapability) -> u64 {
    if window_of(cap) + GC_SLACK > u64::MAX {
        u64::MAX
    } else {
        (window_of(cap) + GC_SLACK) as u64
    }
}

fn retention_of(cap: &ProviderCacheCapability) -> (r: u64)
    ensures
        r == retention(*cap),
{
    warmth_window(cap).saturating_add(GC_SLACK)
}

// ---------------------------------------------------------------------------
// Facts and decisions
// ---------------------------------------------------------------------------

/// Stable request facts the router reasons about. Independent of the transport
/// so that all paths route identically.
#[derive(Debug, Clone, Copy)]
pub struct RouteFacts<'a> {
    /// Session key (explicit or implicit). `None` disables stickiness for this request
    /// (nothing to anchor to).
    pub session_id: Option<&'a str>,
    pub tenant_id: Option<&'a str>,
    /// Stable prompt-prefix hash; a mismatch vs. the stored binding means the provider
    /// cache is already lost, so a switch is free.
    pub prefix_hash: Option<u64>,
    /// Context size in tokens (the tokens a switch would re-ingest).
    pub context_tokens: u64,
    /// The model the quality router picked for this request.
    pub candidate_model: &'a str,
    pub candidate_route: Option<&'a str>,
}

/// The switching policy of a scope.
#[derive(Debug, Clone, Copy)]
pub struct RoutingBudget {
    /// Switch spend allowed, in percent of the never-switch baseline.
    pub max_overhead_pct: Ratio,
    /// Whether a cold session starts with fresh totals.
    pub replenish_on_rebind: bool,
    /// Cached-read rate assumed where none is published, in millionths of the input rate.
    pub cache_read_discount: u64,
    /// Whether a vetoed route is recorded.
    pub record_counterfactual: bool,
}

/// Why a session was routed as it was.
#[derive(Debug, Clone, Copy, PartialEq, Eq, Structural)]
pub enum SwitchReason {
    /// The router agreed with the warm anchor; no switch was needed.
    SameAnchor,
    /// The candidate was outright cheaper, or no budget is configured.
    Free,
    /// A paid switch that kept cumulative spend within the session's overhead cap.
    WithinCap,
    /// A paid switch that would have pushed cumulative spend over the overhead cap.
    OverCap,
    /// Pricing was missing for one side, so the switch was allowed without a cost limit.
    NoPricing,
    /// Nothing warm to protect.
    Cold,
}

impl SwitchReason {
    /// The `reason` label of the decision.
    pub open spec fn reason_label(self) -> Seq<char> {
        match self {
            SwitchReason::SameAnchor => SWITCH_REASON_SAME_ANCHOR@,
            SwitchReason::Free => SWITCH_REASON_FREE@,
            SwitchReason::WithinCap => SWITCH_REASON_WITHIN_CAP@,
            SwitchReason::OverCap => SWITCH_REASON_OVER_CAP@,
            SwitchReason::NoPricing => SWITCH_REASON_NO_PRICING@,
            SwitchReason::Cold => ""@,
        }
    }

    /// The `decision` label.
    pub open spec fn decision_label(self) -> Seq<char> {
        if self == SwitchReason::OverCap {
            SWITCH_DECISION_RETAINED@
        } else {
            SWITCH_DECISION_ALLOWED@
        }
    }

    /// The `reason` label of the decision, empty where none is recorded.
    pub fn as_str(&self) -> (r: &'static str)
        ensures
            r@ == self.reason_label(),
    {
        match self {
            SwitchReason::SameAnchor => SWITCH_REASON_SAME_ANCHOR,
            SwitchReason::Free => SWITCH_REASON_FREE,
            SwitchReason::WithinCap => SWITCH_REASON_WITHIN_CAP,
            SwitchReason::OverCap => SWITCH_REASON_OVER_CAP,
            SwitchReason::NoPricing => SWITCH_REASON_NO_PRICING,
            SwitchReason::Cold => "",
        }
    }

    /// The `decision` label: a switch over the cap is not honored, all else is.
    pub fn decision(&self) -> (r: &'static str)
        ensures
            r@ == self.decision_label(),
    {
        match self {
            SwitchReason::OverCap => SWITCH_DECISION_RETAINED,
            _ => SWITCH_DECISION_ALLOWED,
        }
    }
}

/// Whether the stored prefix hash is known not to be the current one.
pub open spec fn drifted(stored: Option<u64>, current: Option<u64>) -> bool {
    match (stored, current) {
        (Some(s), Some(c)) => s != c,
        _ => false,
    }
}

/// Whether the binding's cache is plausibly warm for this request.
pub open spec fn binding_is_warm(
    b: BindingFacts,
    prefix_hash: Option<u64>,
    caps: Seq<(String, ProviderCacheCapability)>,
    now: u64,
) -> bool {
    &&& idle_time(b.last_used, now) <= window_of(capability_of(caps, b.anchor_model))
    &&& !drifted(b.prefix_hash, prefix_hash)
}

/// The model the session would have stayed on had it never switched.
pub open spec fn never_switched(b: BindingFacts) -> Seq<char> {
    if b.default_model.len() == 0 { b.anchor_model } else { b.default_model }
}

/// The context the session carries: the count of the prior turn where there is one.
pub open spec fn context_of(b: BindingFacts, context_tokens: u64) -> u64 {
    if b.cached_tokens > 0 { b.cached_tokens } else { context_tokens }
}

/// What this turn adds to the never-switch baseline; nothing without a budget
/// or a price.
pub open spec fn turn_baseline(
    b: BindingFacts,
    budget: Option<RoutingBudget>,
    context_tokens: u64,
    prices: Seq<(String, ModelPricing)>,
) -> nat {
    match budget {
        Some(cfg) => match read_cost(
            prices,
            context_of(b, context_tokens) as nat,
            never_switched(b),
            cfg.cache_read_discount,
        ) {
            Some(n) => n,
            None => 0,
        },
        None => 0,
    }
}

/// How much of the context the candidate still has cached from an earlier
/// visit of this session.
pub open spec fn warm_tokens_of(
    b: BindingFacts,
    candidate: Seq<char>,
    context: u64,
    caps: Seq<(String, ProviderCacheCapability)>,
    now: u64,
) -> u64 {
    match visit_of(b.history, candidate, 0) {
        Some(i) => {
            let v = b.history[i];
            if now >= v.last_used && now - v.last_used <= window_of(
                capability_of(caps, candidate),
            ) {
                if v.cached_tokens <= context { v.cached_tokens } else { context }
            } else {
                0
            }
        },
        None => 0,
    }
}

/// Whether a spend is within a percentage of a baseline.
pub open spec fn within_cap(spend: nat, pct: Ratio, baseline: nat) -> bool {
    spend * (100 * pct.den as nat) <= pct.num as nat * baseline
}

/// The verdict on a candidate for a warm session, and what the switch costs
/// where that was weighed.
pub open spec fn verdict(
    b: BindingFacts,
    budget: Option<RoutingBudget>,
    context_tokens: u64,
    candidate: Seq<char>,
    prices: Seq<(String, ModelPricing)>,
    caps: Seq<(String, ProviderCacheCapability)>,
    now: u64,
) -> (SwitchReason, Option<CostFacts>) {
    if candidate == b.anchor_model {
        (SwitchReason::SameAnchor, None)
    } else {
        match budget {
            None => (SwitchReason::Free, None),
            Some(cfg) => {
                let context = context_of(b, context_tokens);
                let warm = warm_tokens_of(b, candidate, context, caps, now);
                let baseline = b.baseline_usd + turn_baseline(b, budget, context_tokens, prices);
                match estimated_switch(
                    prices,
                    context as nat,
                    warm as nat,
                    b.anchor_model,
                    candidate,
                    cfg.cache_read_discount,
                ) {
                    None => (SwitchReason::NoPricing, None),
                    Some(cost) => if cost.delta() <= 0 {
                        (SwitchReason::Free, Some(cost))
                    } else if within_cap(
                        (b.switch_spend_usd + cost.delta()) as nat,
                        cfg.max_overhead_pct,
                        baseline,
                    ) {
                        (SwitchReason::WithinCap, Some(cost))
                    } else {
                        (SwitchReason::OverCap, Some(cost))
                    },
                }
            },
        }
    }
}

/// One switch more, up to the largest count.
pub open spec fn one_more(switches: u32) -> u32 {
    if switches < u32::MAX { (switches + 1) as u32 } else { switches }
}

/// The part of a decision that follows from that judgement: model, route,
/// never-switch model, totals and switches.
pub struct Choice {
    pub reason: SwitchReason,
    pub cost: Option<CostFacts>,
    pub model: Seq<char>,
    pub route_name: Option<Seq<char>>,
    pub default_model: Seq<char>,
    pub baseline_usd: nat,
    pub switch_spend_usd: nat,
    pub switches: u32,
}

/// The choice for a warm session.
pub open spec fn warm_choice(
    b: BindingFacts,
    budget: Option<RoutingBudget>,
    f: RouteFacts<'_>,
    prices: Seq<(String, ModelPricing)>,
    caps: Seq<(String, ProviderCacheCapability)>,
    now: u64,
) -> Choice {
    let (reason, cost) = verdict(
        b,
        budget,
        f.context_tokens,
        f.candidate_model@,
        prices,
        caps,
        now,
    );
    let retained = reason == SwitchReason::OverCap;
    Choice {
        reason,
        cost,
        model: if retained { b.anchor_model } else { f.candidate_model@ },
        route_name: if retained { b.route_name } else { opt_str(f.candidate_route) },
        default_model: never_switched(b),
        baseline_usd: b.baseline_usd + turn_baseline(b, budget, f.context_tokens, prices),
        switch_spend_usd: if reason == SwitchReason::WithinCap {
            (b.switch_spend_usd + cost->0.delta()) as nat
        } else {
            b.switch_spend_usd
        },
        switches: if retained || reason == SwitchReason::SameAnchor {
            b.switches
        } else {
            one_more(b.switches)
        },
    }
}

/// Whether totals are carried over into a fresh episode.
pub open spec fn carries_totals(existing: Option<BindingFacts>, budget: Option<RoutingBudget>) -> bool {
    existing is Some && budget is Some && !budget->0.replenish_on_rebind
}

/// The choice for a session with nothing warm to protect: the candidate, and
/// a fresh episode.
pub open spec fn cold_choice(
    existing: Option<BindingFacts>,
    budget: Option<RoutingBudget>,
    f: RouteFacts<'_>,
) -> Choice {
    let carried = carries_totals(existing, budget);
    Choice {
        reason: SwitchReason::Cold,
        cost: None,
        model: f.candidate_model@,
        route_name: opt_str(f.candidate_route),
        default_model: if carried && existing->0.default_model.len() > 0 {
            existing->0.default_model
        } else {
            f.candidate_model@
        },
        baseline_usd: if carried { existing->0.baseline_usd } else { 0 },
        switch_spend_usd: if carried { existing->0.switch_spend_usd } else { 0 },
        switches: 0,
    }
}

/// Whether an optional binding is warm for this request.
pub open spec fn is_warm(
    existing: Option<BindingFacts>,
    f: RouteFacts<'_>,
    caps: Seq<(String, ProviderCacheCapability)>,
    now: u64,
) -> bool {
    existing is Some && binding_is_warm(existing->0, f.prefix_hash, caps, now)
}

/// The choice for a request.
pub open spec fn choice(
    existing: Option<BindingFacts>,
    budget: Option<RoutingBudget>,
    f: RouteFacts<'_>,
    prices: Seq<(String, ModelPricing)>,
    caps: Seq<(String, ProviderCacheCapability)>,
    now: u64,
) -> Choice {
    if is_warm(existing, f, caps, now) {
        warm_choice(existing->0, budget, f, prices, caps, now)
    } else {
        cold_choice(existing, budget, f)
    }
}

/// The context count kept with the binding: that of the request where it is
/// known, else that of the binding before.
pub open spec fn kept_tokens(existing: Option<BindingFacts>, context_tokens: u64) -> u64 {
    if context_tokens > 0 {
        context_tokens
    } else {
        match existing {
            Some(b) => b.cached_tokens,
            None => 0,
        }
    }
}

/// The route history carried into this turn: a drifted prefix invalidates
/// every model's cache, so it starts fresh.
pub open spec fn carried_history(existing: Option<BindingFacts>, prefix_hash: Option<u64>) -> Seq<
    VisitFacts,
> {
    match existing {
        Some(b) => if drifted(b.prefix_hash, prefix_hash) { Seq::empty() } else { b.history },
        None => Seq::empty(),
    }
}

/// The binding stored after a request.
pub open spec fn next_binding(
    existing: Option<BindingFacts>,
    budget: Option<RoutingBudget>,
    f: RouteFacts<'_>,
    prices: Seq<(String, ModelPricing)>,
    caps: Seq<(String, ProviderCacheCapability)>,
    now: u64,
) -> BindingFacts {
    let c = choice(existing, budget, f, prices, caps, now);
    let tokens = kept_tokens(existing, f.context_tokens);
    BindingFacts {
        anchor_model: c.model,
        default_model: c.default_model,
        route_name: c.route_name,
        prefix_hash: f.prefix_hash,
        last_used: now,
        cached_tokens: tokens,
        baseline_usd: c.baseline_usd,
        switch_spend_usd: c.switch_spend_usd,
        switches: c.switches,
        history: visited(
            carried_history(existing, f.prefix_hash),
            VisitFacts { model: c.model, last_used: now, cached_tokens: tokens },
        ),
        session_cost_usd: match existing {
            Some(b) => b.session_cost_usd,
            None => 0,
        },
    }
}

/// The route not taken: the candidate, with its route where that has a name.
pub open spec fn road_not_taken(candidate: Seq<char>, route: Option<Seq<char>>) -> Seq<char> {
    match route {
        Some(rn) if rn.len() > 0 && rn != "none"@ => candidate + " ("@ + rn + ")"@,
        _ => candidate,
    }
}

/// The vetoed route, where it is to be recorded.
pub open spec fn counterfactual_of(
    c: Choice,
    budget: Option<RoutingBudget>,
    f: RouteFacts<'_>,
) -> Option<Seq<char>> {
    if c.reason == SwitchReason::OverCap && budget is Some && budget->0.record_counterfactual {
        Some(road_not_taken(f.candidate_model@, opt_str(f.candidate_route)))
    } else {
        None
    }
}

/// The routing decision plus the session state to carry into the response side.
#[derive(Debug)]
pub struct RouteDecision {
    /// The model to actually dispatch to (the anchor when a switch was vetoed).
    pub model: String,
    pub route_name: Option<String>,
    /// The session's never-switch model for this episode.
    pub default_model: String,
    /// Whether the session's cache was inferred warm at decision time.
    pub warm: bool,
    /// Cumulative never-switch baseline after this decision, in 10^-18 USD.
    pub baseline_usd: Natural,
    /// Cumulative switch spend after this decision, in 10^-18 USD.
    pub switch_spend_usd: Natural,
    /// Cumulative actual conversation cost so far, in 10^-18 USD.
    pub session_cost_usd: Natural,
    /// Cumulative switches taken this session (after this decision).
    pub switches: u32,
    /// Bounded per-model route history after this decision.
    pub history: Vec<RouteVisit>,
    /// Context-token estimate persisted with the binding (refined later from usage).
    pub cached_tokens: u64,
    /// How long the binding is kept, in milliseconds.
    pub gc_ttl: u64,
    /// How long the session was idle, in milliseconds.
    pub idle: u64,
    /// Why the session was routed so.
    pub reason: SwitchReason,
    /// What the switch costs, where that was weighed.
    pub cost: Option<SwitchCost>,
    /// The vetoed route, where it is to be recorded.
    pub counterfactual: Option<String>,
}

impl RouteDecision {
    /// The binding that the decision makes at a time, for a prompt prefix.
    pub open spec fn facts(&self, prefix_hash: Option<u64>, now: u64) -> BindingFacts {
        BindingFacts {
            anchor_model: self.model@,
            default_model: self.default_model@,
            route_name: opt_text(self.route_name),
            prefix_hash,
            last_used: now,
            cached_tokens: self.cached_tokens,
            baseline_usd: self.baseline_usd@,
            switch_spend_usd: self.switch_spend_usd@,
            switches: self.switches,
            history: visits(self.history@),
            session_cost_usd: self.session_cost_usd@,
        }
    }

    /// The binding that the decision makes at a time, for a prompt prefix.
    pub fn binding(&self, prefix_hash: Option<u64>, now: u64) -> (r: SessionBinding)
        ensures
            r@ == self.facts(prefix_hash, now),
    {
        SessionBinding {
            anchor_model: self.model.clone(),
            default_model: self.default_model.clone(),
            route_name: clone_opt(&self.route_name),
            prefix_hash,
            last_used: now,
            cached_tokens: self.cached_tokens,
            baseline_usd: self.baseline_usd.clone(),
            switch_spend_usd: self.switch_spend_usd.clone(),
            switches: self.switches,
            history: clone_history(&self.history),
            session_cost_usd: self.session_cost_usd.clone(),
        }
    }
}

/// What is known of the models: prices and provider cache windows.
pub struct RouteTables {
    pub prices: Vec<(String, ModelPricing)>,
    pub capabilities: Vec<(String, ProviderCacheCapability)>,
}

/// An owned copy of an optional text.
pub(crate) fn to_opt_string(s: Option<&str>) -> (r: Option<String>)
    ensures
        opt_text(r) == opt_str(s),
{
    match s {
        Some(t) => Some(t.to_owned()),
        None => None,
    }
}

fn has_drifted(stored: Option<u64>, current: Option<u64>) -> (b: bool)
    ensures
        b == drifted(stored, current),
{
    match (stored, current) {
        (Some(s), Some(c)) => s != c,
        _ => false,
    }
}

fn candidate_warm_tokens(
    b: &SessionBinding,
    candidate: &str,
    context: u64,
    caps: &Vec<(String, ProviderCacheCapability)>,
    now: u64,
) -> (r: u64)
    ensures
        r == warm_tokens_of(b@, candidate@, context, caps@, now),
        r <= context,
{
    let ghost h = visits(b.history@);
    let mut i: usize = 0;
    while i < b.history.len()
        invariant
            i <= b.history@.len(),
            h == visits(b.history@),
            visit_of(h, candidate@, 0) == visit_of(h, candidate@, i as int),
        decreases b.history.len() - i,
    {
        let v: &RouteVisit = &b.history[i];
        assert(h[i as int] == v@);
        if same_text(v.model.as_str(), candidate) {
            let window: u64 = warmth_window(&capability_for_model(caps, candidate));
            return if now >= v.last_used && now - v.last_used <= window {
                if v.cached_tokens <= context {
                    v.cached_tokens
                } else {
                    context
                }
            } else {
                0
            };
        }
        i += 1;
    }
    0
}

fn spend_fits(spend: &Natural, pct: &Ratio, baseline: &Natural) -> (b: bool)
    ensures
        b == within_cap(spend@, *pct, baseline@),
{
    let hundred_den: Natural = Natural::new(100).times(&Natural::new(pct.den));
    let lhs: Natural = spend.times(&hundred_den);
    let rhs: Natural = Natural::new(pct.num).times(baseline);
    rhs.at_least(&lhs)
}

/// A verdict with the switch cost that was weighed.
struct Judgement {
    reason: SwitchReason,
    cost: Option<SwitchCost>,
}

spec fn cost_view(c: Option<SwitchCost>) -> Option<CostFacts> {
    match c {
        Some(c) => Some(c@),
        None => None,
    }
}

fn judge(
    b: &SessionBinding,
    budget: Option<&RoutingBudget>,
    baseline: &Natural,
    f: &RouteFacts<'_>,
    tables: &RouteTables,
    now: u64,
) -> (r: Judgement)
    requires
        baseline@ == b@.baseline_usd + turn_baseline(
            b@,
            opt_budget(budget),
            f.context_tokens,
            tables.prices@,
        ),
    ensures
        (r.reason, cost_view(r.cost)) == verdict(
            b@,
            opt_budget(budget),
            f.context_tokens,
            f.candidate_model@,
            tables.prices@,
            tables.capabilities@,
            now,
        ),
{
    if same_text(f.candidate_model, b.anchor_model.as_str()) {
        return Judgement { reason: SwitchReason::SameAnchor, cost: None };
    }
    let cfg: &RoutingBudget = match budget {
        Some(cfg) => cfg,
        None => {
            return Judgement { reason: SwitchReason::Free, cost: None };
        },
    };
    let context: u64 = if b.cached_tokens > 0 { b.cached_tokens } else { f.context_tokens };
    let warm: u64 = candidate_warm_tokens(
        b,
        f.candidate_model,
        context,
        &tables.capabilities,
        now,
    );
    match estimate_switch_cost_in_usd(
        &tables.prices,
        context,
        b.anchor_model.as_str(),
        f.candidate_model,
        warm,
        cfg.cache_read_discount,
    ) {
        // No pricing for one side — fail open (switch freely) rather than
        // veto the router on guesswork.
        None => Judgement { reason: SwitchReason::NoPricing, cost: None },
        Some(cost) => {
            if cost.is_free() {
                // Outright cheaper: allowed for free. Does not reduce spend.
                return Judgement { reason: SwitchReason::Free, cost: Some(cost) };
            }
            let spend: Natural = b.switch_spend_usd.plus(&cost.overhead());
            let reason: SwitchReason = if spend_fits(&spend, &cfg.max_overhead_pct, baseline) {
                SwitchReason::WithinCap
            } else {
                SwitchReason::OverCap
            };
            Judgement { reason, cost: Some(cost) }
        },
    }
}

/// The budget behind an optional reference.
pub open spec fn opt_budget(b: Option<&RoutingBudget>) -> Option<RoutingBudget> {
    match b {
        Some(b) => Some(*b),
        None => None,
    }
}

/// The binding behind an optional reference.
pub open spec fn opt_binding(b: Option<&SessionBinding>) -> Option<BindingFacts> {
    match b {
        Some(b) => Some(b@),
        None => None,
    }
}

/// The choice as it is held while a decision is made.
struct Chosen {
    reason: SwitchReason,
    cost: Option<SwitchCost>,
    model: String,
    route_name: Option<String>,
    default_model: String,
    baseline_usd: Natural,
    switch_spend_usd: Natural,
    switches: u32,
}

impl View for Chosen {
    type V = Choice;

    closed spec fn view(&self) -> Choice {
        Choice {
            reason: self.reason,
            cost: cost_view(self.cost),
            model: self.model@,
            route_name: opt_text(self.route_name),
            default_model: self.default_model@,
            baseline_usd: self.baseline_usd@,
            switch_spend_usd: self.switch_spend_usd@,
            switches: self.switches,
        }
    }
}

fn choose_warm(
    b: &SessionBinding,
    budget: Option<&RoutingBudget>,
    f: &RouteFacts<'_>,
    tables: &RouteTables,
    now: u64,
) -> (r: Chosen)
    ensures
        r@ == warm_choice(
            b@,
            opt_budget(budget),
            *f,
            tables.prices@,
            tables.capabilities@,
            now,
        ),
{
    let default_model: String = if b.default_model.as_str().is_empty() {
        b.anchor_model.clone()
    } else {
        b.default_model.clone()
    };
    let context: u64 = if b.cached_tokens > 0 { b.cached_tokens } else { f.context_tokens };
    // Grow the never-switch baseline by this turn's read cost on the default model.
    let turn: Natural = match budget {
        Some(cfg) => match cached_read_cost_in_usd(
            &tables.prices,
            context,
            default_model.as_str(),
            cfg.cache_read_discount,
        ) {
            Some(n) => n,
            None => Natural::new(0),
        },
        None => Natural::new(0),
    };
    let baseline_usd: Natural = b.baseline_usd.plus(&turn);
    let judgement: Judgement = judge(b, budget, &baseline_usd, f, tables, now);
    let retained: bool = judgement.reason == SwitchReason::OverCap;
    let switch_spend_usd: Natural = match &judgement.cost {
        Some(cost) => if judgement.reason == SwitchReason::WithinCap {
            b.switch_spend_usd.plus(&cost.overhead())
        } else {
            b.switch_spend_usd.clone()
        },
        None => b.switch_spend_usd.clone(),
    };
    let switches: u32 = if retained || judgement.reason == SwitchReason::SameAnchor {
        b.switches
    } else {
        b.switches.saturating_add(1)
    };
    let model: String = if retained {
        b.anchor_model.clone()
    } else {
        f.candidate_model.to_owned()
    };
    let route_name: Option<String> = if retained {
        clone_opt(&b.route_name)
    } else {
        to_opt_string(f.candidate_route)
    };
    Chosen {
        reason: judgement.reason,
        cost: judgement.cost,
        model,
        route_name,
        default_model,
        baseline_usd,
        switch_spend_usd,
        switches,
    }
}

fn choose_cold(
    existing: Option<&SessionBinding>,
    budget: Option<&RoutingBudget>,
    f: &RouteFacts<'_>,
) -> (r: Chosen)
    ensures
        r@ == cold_choice(opt_binding(existing), opt_budget(budget), *f),
{
    let mut baseline_usd: Natural = Natural::new(0);
    let mut switch_spend_usd: Natural = Natural::new(0);
    let mut default_model: String = f.candidate_model.to_owned();
    if let Some(cfg) = budget {
        if let Some(b) = existing {
            if !cfg.replenish_on_rebind {
                baseline_usd = b.baseline_usd.clone();
                switch_spend_usd = b.switch_spend_usd.clone();
                if !b.default_model.as_str().is_empty() {
                    default_model = b.default_model.clone();
                }
            }
        }
    }
    Chosen {
        reason: SwitchReason::Cold,
        cost: None,
        model: f.candidate_model.to_owned(),
        route_name: to_opt_string(f.candidate_route),
        default_model,
        baseline_usd,
        switch_spend_usd,
        switches: 0,
    }
}

/// The route not taken: the candidate, with its route where that has a name.
pub(crate) fn describe_route(candidate: &str, route: Option<&str>) -> (r: String)
    ensures
        r@ == road_not_taken(candidate@, opt_str(route)),
{
    match route {
        Some(rn) => if !rn.is_empty() && !same_text(rn, "none") {
            let mut r: String = concat3(candidate, " (", rn);
            r.append(")");
            r
        } else {
            candidate.to_owned()
        },
        None => candidate.to_owned(),
    }
}

/// Whether a decision is the one for the given request and binding.
pub open spec fn decision_fits(
    d: RouteDecision,
    existing: Option<BindingFacts>,
    budget: Option<RoutingBudget>,
    f: RouteFacts<'_>,
    tables: RouteTables,
    now: u64,
) -> bool {
    let prices = tables.prices@;
    let caps = tables.capabilities@;
    let c = choice(existing, budget, f, prices, caps, now);
    &&& d.facts(f.prefix_hash, now) == next_binding(existing, budget, f, prices, caps, now)
    &&& d.warm == is_warm(existing, f, caps, now)
    &&& d.gc_ttl == retention(capability_of(caps, c.model))
    &&& d.reason == c.reason
    &&& opt_cost(d.cost) == c.cost
    &&& opt_text(d.counterfactual) == counterfactual_of(c, budget, f)
    &&& d.idle == (match existing {
        Some(b) => idle_time(b.last_used, now),
        None => 0,
    })
}

/// The cost behind an option.
pub open spec fn opt_cost(c: Option<SwitchCost>) -> Option<CostFacts> {
    match c {
        Some(c) => Some(c@),
        None => None,
    }
}

/// Decide the final model for a request of a session, given the session's
/// binding. Never overrides the router on a *cold* session — it only protects
/// a warm cache.
pub fn decide(
    existing: Option<&SessionBinding>,
    budget: Option<&RoutingBudget>,
    facts: &RouteFacts<'_>,
    tables: &RouteTables,
    now: u64,
) -> (d: RouteDecision)
    ensures
        decision_fits(d, opt_binding(existing), opt_budget(budget), *facts, *tables, now),
{
    let mut warm: bool = false;
    let mut idle: u64 = 0;
    let mut drift: bool = false;
    if let Some(b) = existing {
        let cap: ProviderCacheCapability = capability_for_model(
            &tables.capabilities,
            b.anchor_model.as_str(),
        );
        let (in_window, gap) = warmth(b, &cap, now);
        drift = has_drifted(b.prefix_hash, facts.prefix_hash);
        warm = in_window && !drift;
        idle = gap;
    }
    let chosen: Chosen = match existing {
        Some(b) => if warm {
            choose_warm(b, budget, facts, tables, now)
        } else {
            choose_cold(existing, budget, facts)
        },
        None => choose_cold(existing, budget, facts),
    };
    let cached_tokens: u64 = if facts.context_tokens > 0 {
        facts.context_tokens
    } else {
        match existing {
            Some(b) => b.cached_tokens,
            None => 0,
        }
    };
    let mut history: Vec<RouteVisit> = Vec::new();
    assert(visits(history@) =~= Seq::empty());
    if let Some(b) = existing {
        if !drift {
            history = clone_history(&b.history);
        }
    }
    record_route_visit(&mut history, chosen.model.as_str(), now, cached_tokens);
    let gc_ttl: u64 = retention_of(
        &capability_for_model(&tables.capabilities, chosen.model.as_str()),
    );
    let counterfactual: Option<String> = match budget {
        Some(cfg) => if chosen.reason == SwitchReason::OverCap && cfg.record_counterfactual {
            Some(describe_route(facts.candidate_model, facts.candidate_route))
        } else {
            None
        },
        None => None,
    };
    let session_cost_usd: Natural = match existing {
        Some(b) => b.session_cost_usd.clone(),
        None => Natural::new(0),
    };
    RouteDecision {
        model: chosen.model,
        route_name: chosen.route_name,
        default_model: chosen.default_model,
        warm,
        baseline_usd: chosen.baseline_usd,
        switch_spend_usd: chosen.switch_spend_usd,
        session_cost_usd,
        switches: chosen.switches,
        history,
        cached_tokens,
        gc_ttl,
        idle,
        reason: chosen.reason,
        cost: chosen.cost,
        counterfactual,
    }
}

/// Whether a decision honors the candidate of a request with nothing to
/// anchor to.
pub open spec fn unanchored(d: RouteDecision, f: RouteFacts<'_>, tables: RouteTables) -> bool {
    &&& d.facts(None, 0) == (BindingFacts {
        anchor_model: f.candidate_model@,
        default_model: f.candidate_model@,
        route_name: opt_str(f.candidate_route),
        prefix_hash: None,
        last_used: 0,
        cached_tokens: f.context_tokens,
        baseline_usd: 0,
        switch_spend_usd: 0,
        switches: 0,
        history: Seq::empty(),
        session_cost_usd: 0,
    })
    &&& !d.warm
    &&& d.gc_ttl == retention(capability_of(tables.capabilities@, f.candidate_model@))
    &&& d.idle == 0
    &&& d.reason == SwitchReason::Cold
    &&& d.cost is None
    &&& d.counterfactual is None
}

fn decide_unanchored(facts: &RouteFacts<'_>, tables: &RouteTables) -> (d: RouteDecision)
    ensures
        unanchored(d, *facts, *tables),
{
    let gc_ttl: u64 = retention_of(
        &capability_for_model(&tables.capabilities, facts.candidate_model),
    );
    let history: Vec<RouteVisit> = Vec::new();
    assert(visits(history@) =~= Seq::empty());
    RouteDecision {
        model: facts.candidate_model.to_owned(),
        route_name: to_opt_string(facts.candidate_route),
        default_model: facts.candidate_model.to_owned(),
        warm: false,
        baseline_usd: Natural::new(0),
        switch_spend_usd: Natural::new(0),
        session_cost_usd: Natural::new(0),
        switches: 0,
        history,
        cached_tokens: facts.context_tokens,
        gc_ttl,
        idle: 0,
        reason: SwitchReason::Cold,
        cost: None,
        counterfactual: None,
    }
}

/// The binding a store holds for a session at a time.
pub open spec fn binding_in(store: MemorySessionCache, key: Seq<char>, now: u64) -> Option<
    BindingFacts,
> {
    if store@.contains_key(key) && store@[key].alive(now) {
        Some(store@[key].value@)
    } else {
        None
    }
}

/// Whether a store differs from another in the binding of one session alone,
/// but for the oldest session where there was no room.
pub open spec fn rebound(before: MemorySessionCache, after: MemorySessionCache, key: Seq<char>) -> bool {
    let full = before.size() >= before.limit() && before.size() > 0;
    &&& after@.contains_key(key)
    &&& after.size() == before.size() + (if before@.contains_key(key) || full { 0int } else { 1 })
    &&& if before@.contains_key(key) || !full {
        after@ == before@.insert(key, after@[key])
    } else {
        exists|victim: Seq<char>| #[trigger]
            is_oldest(before@, victim) && after@ == before@.remove(victim).insert(key, after@[key])
    }
}

/// Whether `d` is the decision for a request, and `after` the store with it.
pub open spec fn routes(
    before: MemorySessionCache,
    budget: Option<RoutingBudget>,
    facts: RouteFacts<'_>,
    tables: RouteTables,
    now: u64,
    d: RouteDecision,
    after: MemorySessionCache,
) -> bool {
    match facts.session_id {
        None => after == before && unanchored(d, facts, tables),
        Some(session_id) => {
            let key = key_of(opt_str(facts.tenant_id), session_id@);
            &&& decision_fits(d, binding_in(before, key, now), budget, facts, tables, now)
            &&& rebound(before, after, key)
            &&& after@[key].value@ == d.facts(facts.prefix_hash, now)
            &&& after@[key].stored_at == now
            &&& after@[key].ttl == d.gc_ttl
        },
    }
}

/// Decide the final model for a request and persist the updated session binding.
///
/// Never overrides the router on a *cold* session — it only protects a warm cache. The
/// returned [`RouteDecision`] carries the model to dispatch plus the session state the
/// response side reuses when it refreshes the binding from real usage.
pub fn route(
    store: &mut MemorySessionCache,
    routing_budget: Option<&RoutingBudget>,
    facts: &RouteFacts<'_>,
    tables: &RouteTables,
    now: u64,
) -> (d: RouteDecision)
    requires
        old(store).wf(),
    ensures
        final(store).wf(),
        final(store).limit() == old(store).limit(),
        routes(*old(store), opt_budget(routing_budget), *facts, *tables, now, d, *final(store)),
{
    match facts.session_id {
        None => decide_unanchored(facts, tables),
        Some(session_id) => {
            let key: String = session_key(facts.tenant_id, session_id);
            let existing: Option<SessionBinding> = store.get(key.as_str(), now);
            let d: RouteDecision = decide(existing.as_ref(), routing_budget, facts, tables, now);
            let binding: SessionBinding = d.binding(facts.prefix_hash, now);
            let gc_ttl: u64 = d.gc_ttl;
            let ghost entry = Stamped { value: binding, stored_at: now, ttl: gc_ttl };
            store.put(key.as_str(), binding, now, gc_ttl);
            proof {
                assert(store@.contains_key(key@) && store@[key@] == entry);
            }
            d
        },
    }
}

/// The texts of the messages that have a content.
pub open spec fn context_texts(messages: Seq<Message>) -> Seq<Seq<char>>
    decreases messages.len(),
{
    if messages.len() == 0 {
        Seq::empty()
    } else {
        let rest = context_texts(messages.drop_last());
        match messages.last().content {
            Some(c) => rest.push(content_text(c)),
            None => rest,
        }
    }
}

/// The text of a request: that of its messages, line by line.
pub open spec fn context_text(messages: Seq<Message>) -> Seq<char> {
    joined(context_texts(messages), "\n"@)
}

/// The text of a request, which its tokens are counted in.
pub fn request_text(messages: &[Message]) -> (r: String)
    ensures
        r@ == context_text(messages@),
{
    let mut pieces: Vec<String> = Vec::new();
    let n: usize = messages.len();
    let mut i: usize = 0;
    assert(texts(pieces@) =~= context_texts(messages@.take(0)));
    while i < n
        invariant
            i <= n,
            n == messages@.len(),
            texts(pieces@) == context_texts(messages@.take(i as int)),
        decreases n - i,
    {
        proof {
            let cut = messages@.take(i + 1);
            assert(cut.last() == messages@[i as int]);
            assert(cut.drop_last() =~= messages@.take(i as int));
        }
        if let Some(c) = &messages[i].content {
            let t: String = c.extract_text();
            assert(texts(pieces@.push(t)) =~= texts(pieces@).push(t@));
            pieces.push(t);
        }
        i += 1;
    }
    assert(messages@.take(n as int) =~= messages@);
    join(&pieces, "\n")
}

/// The size of a request in tokens.
pub open spec fn tokens_of(messages: Seq<Message>, counted: Option<u64>) -> nat {
    match counted {
        Some(n) => n as nat,
        None => byte_len(context_text(messages)) / 4,
    }
}

/// Count the request's context size in tokens: `counted` is what the
/// tokenizer made of [`request_text`], where it knows the model; else a token is
/// assumed for every four bytes.
pub fn actual_context_tokens(messages: &[Message], counted: Option<u64>) -> (r: u64)
    ensures
        r == tokens_of(messages@, counted),
{
    match counted {
        Some(n) => n,
        None => {
            let text: String = request_text(messages);
            (bytes_in(text.as_str()) / 4) as u64
        },
    }
}

// ---------------------------------------------------------------------------
// Laws
// ---------------------------------------------------------------------------

/// One request of a session: what it asks, when, and whether the store had
/// lost the session's binding by then.
pub struct Turn<'a> {
    pub facts: RouteFacts<'a>,
    pub now: u64,
    pub forgotten: bool,
}

/// The binding of a session after a sequence of requests.
pub open spec fn session_after(
    turns: Seq<Turn<'_>>,
    budget: Option<RoutingBudget>,
    prices: Seq<(String, ModelPricing)>,
    caps: Seq<(String, ProviderCacheCapability)>,
) -> Option<BindingFacts>
    decreases turns.len(),
{
    if turns.len() == 0 {
        None
    } else {
        let t = turns.last();
        let before = session_after(turns.drop_last(), budget, prices, caps);
        let existing = if t.forgotten { None } else { before };
        Some(next_binding(existing, budget, t.facts, prices, caps, t.now))
    }
}

proof fn lemma_cap_grows(spend: nat, pct: Ratio, baseline: nat, more: nat)
    requires
        within_cap(spend, pct, baseline),
    ensures
        within_cap(spend, pct, baseline + more),
{
    let p = pct.num as nat;
    assert(p * baseline <= p * (baseline + more)) by (nonlinear_arith)
        requires
            p >= 0,
            more >= 0,
    ;
}

/// A request leaves the switch spend of its session within the overhead cap
/// if it was within it before.
pub proof fn request_keeps_the_cap(
    existing: Option<BindingFacts>,
    budget: RoutingBudget,
    f: RouteFacts<'_>,
    prices: Seq<(String, ModelPricing)>,
    caps: Seq<(String, ProviderCacheCapability)>,
    now: u64,
)
    requires
        existing is Some ==> within_cap(
            existing->0.switch_spend_usd,
            budget.max_overhead_pct,
            existing->0.baseline_usd,
        ),
    ensures
        ({
            let b = next_binding(existing, Some(budget), f, prices, caps, now);
            within_cap(b.switch_spend_usd, budget.max_overhead_pct, b.baseline_usd)
        }),
{
    let pct = budget.max_overhead_pct;
    if is_warm(existing, f, caps, now) {
        let b = existing->0;
        let c = warm_choice(b, Some(budget), f, prices, caps, now);
        if c.reason != SwitchReason::WithinCap {
            lemma_cap_grows(
                b.switch_spend_usd,
                pct,
                b.baseline_usd,
                turn_baseline(b, Some(budget), f.context_tokens, prices),
            );
        }
    } else {
        let c = cold_choice(existing, Some(budget), f);
        if !carries_totals(existing, Some(budget)) {
            assert(0 * (100 * pct.den as nat) <= pct.num as nat * 0) by (nonlinear_arith);
        }
    }
}

/// A conversation spends at most `max_overhead_pct` percent of its
/// never-switch baseline on switching: after any sequence of requests, at
/// whatever times, and whenever the store lost its binding.
pub proof fn conversation_stays_within_cap(
    turns: Seq<Turn<'_>>,
    budget: RoutingBudget,
    prices: Seq<(String, ModelPricing)>,
    caps: Seq<(String, ProviderCacheCapability)>,
)
    requires
        turns.len() > 0,
    ensures
        ({
            let b = session_after(turns, Some(budget), prices, caps)->0;
            within_cap(b.switch_spend_usd, budget.max_overhead_pct, b.baseline_usd)
        }),
    decreases turns.len(),
{
    let t = turns.last();
    let before = session_after(turns.drop_last(), Some(budget), prices, caps);
    if turns.len() > 1 {
        conversation_stays_within_cap(turns.drop_last(), budget, prices, caps);
    }
    let existing = if t.forgotten { None } else { before };
    request_keeps_the_cap(existing, budget, t.facts, prices, caps, t.now);
}

/// The router is overridden only for a warm session under a budget, and then
/// its anchor and the anchor's route are kept, at no spend and without a switch.
pub proof fn only_a_warm_session_is_held(
    existing: Option<BindingFacts>,
    budget: Option<RoutingBudget>,
    f: RouteFacts<'_>,
    prices: Seq<(String, ModelPricing)>,
    caps: Seq<(String, ProviderCacheCapability)>,
    now: u64,
)
    requires
        next_binding(existing, budget, f, prices, caps, now).anchor_model != f.candidate_model@,
    ensures
        is_warm(existing, f, caps, now),
        budget is Some,
        ({
            let b = next_binding(existing, budget, f, prices, caps, now);
            &&& b.anchor_model == existing->0.anchor_model
            &&& b.route_name == existing->0.route_name
            &&& b.switch_spend_usd == existing->0.switch_spend_usd
            &&& b.switches == existing->0.switches
        }),
{
}

/// Within a warm episode the baseline and the spend never shrink: a switch to
/// a cheaper model is free, and gives nothing back.
pub proof fn totals_never_shrink_while_warm(
    existing: BindingFacts,
    budget: Option<RoutingBudget>,
    f: RouteFacts<'_>,
    prices: Seq<(String, ModelPricing)>,
    caps: Seq<(String, ProviderCacheCapability)>,
    now: u64,
)
    requires
        is_warm(Some(existing), f, caps, now),
    ensures
        ({
            let b = next_binding(Some(existing), budget, f, prices, caps, now);
            let c = warm_choice(existing, budget, f, prices, caps, now);
            &&& b.baseline_usd >= existing.baseline_usd
            &&& b.switch_spend_usd >= existing.switch_spend_usd
            &&& c.reason == SwitchReason::Free ==> b.switch_spend_usd
                == existing.switch_spend_usd
            &&& b.default_model == never_switched(existing)
        }),
{
}

/// A binding that is still warm is still kept: its time to live ends after
/// the warmth window does.
pub proof fn warm_binding_outlives_its_window(
    entry: Stamped<SessionBinding>,
    caps: Seq<(String, ProviderCacheCapability)>,
    now: u64,
)
    requires
        entry.stored_at == entry.value@.last_used,
        entry.ttl == retention(capability_of(caps, entry.value@.anchor_model)),
        idle_time(entry.value@.last_used, now) <= window_of(
            capability_of(caps, entry.value@.anchor_model),
        ),
        idle_time(entry.value@.last_used, now) < u64::MAX,
    ensures
        entry.alive(now),
{
}

} // verus!
