//! Switch costs, the regret limit, session caches and route selection.

use brightstaff::chat::{Message, MessageContent, Role};
use brightstaff::handlers::llm::session_stickiness::{
    apply_cache_regret_gate, lookup_session_pin, plan_pin_after_routing, resolve_session,
    PinAction, PromptCaching, SessionStickiness,
};
use brightstaff::natural::{Natural, Ratio};
use brightstaff::router::cache_regret::{
    evaluate_switch, gate_applies, SwitchCostThreshold, SwitchDecision,
};
use brightstaff::router::headers::{orchestrator_headers, router_headers};
use brightstaff::router::llm::{RouterPlan, RouterService, RoutingError};
use brightstaff::router::model_metrics::{ModelPricing, RankContext, SelectionPreference};
use brightstaff::router::orchestrator::{
    estimate_switch_cost_in_usd, session_key, switch_cost_in_usd, OrchestrationError,
    OrchestratorService, SwitchCost,
};
use brightstaff::router::orchestrator_model::{OrchestratorModelError, OrchestratorSelection};
use brightstaff::router::preferences::{
    LlmProvider, ModelUsagePreference, RoutingPreference, TopLevelRoutingPreference,
};
use brightstaff::router::session_cache::{CachedRoute, MemorySessionCache};
use brightstaff::session_cache::redis::{entry_times, is_stale, make_key};
use brightstaff::session_cache::{CacheLookup, SessionBinding};

/// A price of one token in 10^-18 USD, given in micro-USD per million tokens.
fn rate(micro_per_million: u128) -> Natural {
    Natural::new(micro_per_million * 1_000_000)
}

/// Money in 10^-18 USD, given in millionths of a dollar.
fn usd(micro: u128) -> u128 {
    micro * 1_000_000_000_000
}

fn same(n: &Natural, v: u128) -> bool {
    n.at_least(&Natural::new(v)) && Natural::new(v).at_least(n)
}

fn loses(cost: &SwitchCost, v: u128) -> bool {
    !cost.is_free() && same(&cost.overhead(), v)
}

fn saves(cost: &SwitchCost, v: u128) -> bool {
    cost.is_free() && same(&cost.anchor.minus(&cost.candidate), v)
}

// ---- switch-cost math ----
//
// Rates in USD per million input tokens:
//   opus-4-1:   input 15,  cache_read 1.5
//   sonnet-4-5: input 3,   cache_read 0.3
//   haiku-4-5:  input 1,   cache_read 0.1
//   gpt-4.1:           input 2,   cache_read 0.5

#[test]
fn negative_cost_when_candidate_undercuts_cached_rate() {
    // Anchor opus (cached 1.5) -> haiku (uncached 1.0) over 100k context:
    // cost = 0.1M x (1.0 - 1.5) = -$0.05 — cheaper even after re-reading.
    let cost = switch_cost_in_usd(100_000, &rate(1_500_000), &rate(1_000_000));
    assert!(saves(&cost, usd(50_000)));
}

#[test]
fn positive_cost_when_candidate_pricier_than_cached_rate() {
    // Anchor opus (cached 1.5) -> gpt-4.1 (uncached 2.0) over 100k:
    // cost = 0.1M x (2.0 - 1.5) = +$0.05.
    let cost = switch_cost_in_usd(100_000, &rate(1_500_000), &rate(2_000_000));
    assert!(loses(&cost, usd(50_000)));
}

#[test]
fn large_context_amplifies_cost() {
    // Anchor sonnet (cached 0.3) -> gpt-5.5-class (uncached 5.0) over 150k:
    // cost = 0.15M x (5.0 - 0.3) = +$0.705.
    let cost = switch_cost_in_usd(150_000, &rate(300_000), &rate(5_000_000));
    assert!(loses(&cost, usd(705_000)));
}

#[test]
fn cost_scales_linearly_with_context() {
    let small = switch_cost_in_usd(10_000, &rate(300_000), &rate(800_000));
    let large = switch_cost_in_usd(1_000_000, &rate(300_000), &rate(800_000));
    let scaled = small.overhead().times(&Natural::new(100));
    assert!(scaled.at_least(&large.overhead()) && large.overhead().at_least(&scaled));
}

#[test]
fn tiny_context_cost_is_negligible() {
    // 2k-token chat: even an expensive candidate costs ~$0.009.
    let cost = switch_cost_in_usd(2_000, &rate(300_000), &rate(5_000_000));
    assert!(Natural::new(usd(10_000) - 1).at_least(&cost.overhead()));
}

#[test]
fn warm_tokens_are_read_at_the_cached_rate() {
    let price = |input: u64, cached: Option<u64>| ModelPricing {
        input_per_million: input,
        output_per_million: 1,
        cached_input_per_million: cached,
    };
    let prices = vec![
        ("a".to_string(), price(3_000_000, Some(300_000))),
        ("b".to_string(), price(5_000_000, None)),
    ];
    // 60k warm at a tenth of 5.0, 40k cold at 5.0, against 100k at 0.3.
    let cost =
        estimate_switch_cost_in_usd(&prices, 100_000, "a", "b", 60_000, 100_000).unwrap();
    assert!(same(&cost.candidate, usd(30_000) + usd(200_000)));
    assert!(same(&cost.anchor, usd(30_000)));
    assert!(estimate_switch_cost_in_usd(&prices, 100_000, "a", "c", 0, 100_000).is_none());
    assert!(estimate_switch_cost_in_usd(&prices, 100_000, "c", "a", 0, 100_000).is_none());
}

// ---- the regret limit ----

const USD_10_CENTS: SwitchCostThreshold = SwitchCostThreshold::MaxRegretUsd {
    value: 100_000_000_000_000_000,
};

#[test]
fn case1_negative_regret_always_allows() {
    // Pinned opus (cached 1.5) -> haiku (uncached 1.0) over 100k context:
    // regret = 0.1M x (1.0 - 1.5) = -$0.05 — cheaper even after re-reading.
    let eval = evaluate_switch(&USD_10_CENTS, 100_000, &rate(1_500_000), &rate(1_000_000));
    assert_eq!(eval.decision, SwitchDecision::Allow);
    assert!(saves(&eval.regret, usd(50_000)));
}

#[test]
fn case1_allows_even_with_zero_threshold() {
    // A zero ceiling still allows strictly-cheaper switches.
    let zero = SwitchCostThreshold::MaxRegretUsd { value: 0 };
    let eval = evaluate_switch(&zero, 100_000, &rate(1_500_000), &rate(1_000_000));
    assert_eq!(eval.decision, SwitchDecision::Allow);
}

#[test]
fn case3_regret_under_ceiling_allows() {
    // Pinned opus (cached 1.5) -> gpt-4.1 (uncached 2.0) over 100k:
    // regret = 0.1M x (2.0 - 1.5) = +$0.05 <= $0.10 -> allow.
    let eval = evaluate_switch(&USD_10_CENTS, 100_000, &rate(1_500_000), &rate(2_000_000));
    assert_eq!(eval.decision, SwitchDecision::Allow);
    assert!(loses(&eval.regret, usd(50_000)));
    assert!(same(&eval.threshold_num, usd(100_000)));
    assert!(same(&eval.threshold_den, 1));
}

#[test]
fn case3_regret_over_ceiling_retains_previous() {
    // Pinned sonnet (cached 0.3) -> gpt-5.5-class (uncached 5.0) over 150k:
    // regret = 0.15M x (5.0 - 0.3) = +$0.705 > $0.10 -> veto.
    let eval = evaluate_switch(&USD_10_CENTS, 150_000, &rate(300_000), &rate(5_000_000));
    assert_eq!(eval.decision, SwitchDecision::RetainPrevious);
    assert!(loses(&eval.regret, usd(705_000)));
}

#[test]
fn raising_the_ceiling_is_the_case3_dial() {
    // Same switch clears with a quality-first ceiling of $1.00.
    let generous = SwitchCostThreshold::MaxRegretUsd {
        value: usd(1_000_000),
    };
    let eval = evaluate_switch(&generous, 150_000, &rate(300_000), &rate(5_000_000));
    assert_eq!(eval.decision, SwitchDecision::Allow);
}

fn pct_200() -> SwitchCostThreshold {
    SwitchCostThreshold::MaxRegretPctOfCached {
        value: Ratio::new(200, 1),
    }
}

#[test]
fn pct_of_cached_threshold_scales_with_baseline() {
    // Baseline to stay on sonnet-cached over 100k = 0.1M x 0.3 = $0.03.
    // 200% ceiling -> allowed regret $0.06.
    let pct = pct_200();

    // gpt-4o-class candidate (uncached 2.5): regret = 0.1M x 2.2 = $0.22 > $0.06.
    let veto = evaluate_switch(&pct, 100_000, &rate(300_000), &rate(2_500_000));
    assert_eq!(veto.decision, SwitchDecision::RetainPrevious);
    let ceiling = veto.threshold_den.times(&Natural::new(usd(60_000)));
    assert!(ceiling.at_least(&veto.threshold_num) && veto.threshold_num.at_least(&ceiling));

    // Cheap candidate (uncached 0.8): regret = 0.1M x 0.5 = $0.05 <= $0.06.
    let allow = evaluate_switch(&pct, 100_000, &rate(300_000), &rate(800_000));
    assert_eq!(allow.decision, SwitchDecision::Allow);
}

#[test]
fn pct_threshold_scales_with_context_size() {
    // The same relative policy admits the same switch regardless of context
    // size, because both regret and baseline scale linearly with tokens.
    let pct = pct_200();
    let small = evaluate_switch(&pct, 10_000, &rate(300_000), &rate(800_000));
    let large = evaluate_switch(&pct, 1_000_000, &rate(300_000), &rate(800_000));
    assert_eq!(small.decision, SwitchDecision::Allow);
    assert_eq!(large.decision, SwitchDecision::Allow);
}

#[test]
fn tiny_context_regret_is_negligible() {
    // 2k-token chat: even an expensive candidate costs ~$0.009 of regret.
    let eval = evaluate_switch(&USD_10_CENTS, 2_000, &rate(300_000), &rate(5_000_000));
    assert_eq!(eval.decision, SwitchDecision::Allow);
    assert!(Natural::new(usd(10_000) - 1).at_least(&eval.regret.overhead()));
}

fn previous_pin(
    model: &str,
    observed_cache_hit: bool,
) -> brightstaff::session_cache::CachedRoute {
    brightstaff::session_cache::CachedRoute {
        model_name: model.to_string(),
        route_name: None,
        prefix_hash: Some(42),
        observed_cache_hit,
    }
}

#[test]
fn gate_applies_to_warm_pin_with_different_candidate() {
    let previous = previous_pin("anthropic/sonnet-4-5", true);
    assert!(gate_applies(&previous, false, "openai/gpt-5.5"));
}

#[test]
fn gate_skipped_on_prefix_drift() {
    // A drifted prefix means the provider cache is already cold — switch freely.
    let previous = previous_pin("anthropic/sonnet-4-5", true);
    assert!(!gate_applies(&previous, true, "openai/gpt-5.5"));
}

#[test]
fn gate_skipped_when_no_cache_activity_observed() {
    // A pin that never produced a cache hit has nothing worth protecting.
    let previous = previous_pin("anthropic/sonnet-4-5", false);
    assert!(!gate_applies(&previous, false, "openai/gpt-5.5"));
}

#[test]
fn gate_skipped_when_candidate_is_same_model() {
    let previous = previous_pin("anthropic/sonnet-4-5", true);
    assert!(!gate_applies(
        &previous,
        false,
        "anthropic/sonnet-4-5"
    ));
}

fn gate_prices() -> Vec<(String, ModelPricing)> {
    vec![
        (
            "anthropic/sonnet-4-5".to_string(),
            ModelPricing {
                input_per_million: 3_000_000,
                output_per_million: 15_000_000,
                cached_input_per_million: Some(300_000),
            },
        ),
        (
            "openai/gpt-5.5".to_string(),
            ModelPricing {
                input_per_million: 5_000_000,
                output_per_million: 15_000_000,
                cached_input_per_million: None,
            },
        ),
    ]
}

#[test]
fn gate_restores_the_previous_model() {
    let previous = previous_pin("anthropic/sonnet-4-5", true);
    let settings = SessionStickiness {
        switch_cost: USD_10_CENTS,
        cache_read_discount: 100_000,
        record_counterfactual: true,
    };
    let mut model = "openai/gpt-5.5".to_string();
    let mut route = Some("code".to_string());
    let out = apply_cache_regret_gate(
        Some(settings),
        Some(&previous),
        false,
        150_000,
        &gate_prices(),
        &mut model,
        &mut route,
    );
    assert!(out.retained);
    assert_eq!(model, "anthropic/sonnet-4-5");
    assert_eq!(route, None);
    assert_eq!(out.counterfactual.as_deref(), Some("openai/gpt-5.5 (code)"));

    // A small context is worth the switch, and without settings, a previous
    // pin or a price there is no limit.
    for (settings, previous, tokens, prices) in [
        (Some(settings), Some(&previous), 2_000, gate_prices()),
        (None, Some(&previous), 150_000, gate_prices()),
        (Some(settings), None, 150_000, gate_prices()),
        (Some(settings), Some(&previous), 150_000, Vec::new()),
    ] {
        let mut model = "openai/gpt-5.5".to_string();
        let mut route = Some("code".to_string());
        let out = apply_cache_regret_gate(
            settings, previous, false, tokens, &prices, &mut model, &mut route,
        );
        assert!(!out.retained);
        assert_eq!(model, "openai/gpt-5.5");
        assert_eq!(route.as_deref(), Some("code"));
    }
}

#[test]
fn pins_are_usable_stale_or_drifted() {
    let found = |is_stale| {
        Some(CacheLookup {
            route: previous_pin("m", true),
            is_stale,
        })
    };
    let fresh = lookup_session_pin(found(false), Some(42));
    assert!(fresh.pinned_route.is_some() && fresh.previous_route.is_none());
    let stale = lookup_session_pin(found(true), Some(42));
    assert!(stale.pinned_route.is_none() && stale.previous_route.is_some());
    assert!(!stale.previous_prefix_drifted);
    let drifted = lookup_session_pin(found(false), Some(7));
    assert!(drifted.pinned_route.is_none() && drifted.previous_route.is_some());
    assert!(drifted.previous_prefix_drifted);
    let unknown = lookup_session_pin(found(false), None);
    assert!(unknown.pinned_route.is_some());
    assert!(lookup_session_pin(None, Some(42)).previous_route.is_none());
}

#[test]
fn implicit_sessions_are_pinned_after_a_hit() {
    let caching = PromptCaching {
        enabled: true,
        session_affinity: true,
        session_ttl_seconds: Some(60),
    };
    let implicit = plan_pin_after_routing(&caching, Some("s"), true, "m", None, Some(1), false);
    assert_eq!(implicit.action, Some(PinAction::CommitOnCacheActivity));
    assert!(implicit.store.is_none());
    let explicit =
        plan_pin_after_routing(&caching, Some("s"), false, "m", Some("r"), Some(1), true);
    assert_eq!(
        explicit.action,
        Some(PinAction::Refresh {
            previously_observed_hit: true
        })
    );
    let pin = explicit.store.unwrap();
    assert_eq!(pin.model_name, "m");
    assert_eq!(pin.route_name.as_deref(), Some("r"));
    assert!(pin.observed_cache_hit);
    assert_eq!(explicit.ttl_seconds, Some(60));
    let off = PromptCaching {
        enabled: false,
        ..caching
    };
    assert!(plan_pin_after_routing(&off, Some("s"), false, "m", None, None, true)
        .action
        .is_none());
}

fn user(text: &str) -> Message {
    Message {
        role: Role::User,
        content: Some(MessageContent::Text(text.to_string())),
        name: None,
        tool_calls: None,
        tool_call_id: None,
    }
}

#[test]
fn explicit_session_wins_over_the_implicit_one() {
    let caching = PromptCaching {
        enabled: true,
        session_affinity: true,
        session_ttl_seconds: None,
    };
    let messages = [user("hi")];
    let r = resolve_session(
        Some("mine".to_string()),
        &messages,
        None,
        None,
        &caching,
        false,
    );
    assert_eq!(r.session_id.as_deref(), Some("mine"));
    assert!(!r.is_implicit_session);
    assert!(r.request_prefix_hash.is_some());
    let r = resolve_session(None, &messages, None, None, &caching, false);
    assert!(r.session_id.unwrap().starts_with("implicit:"));
    assert!(r.is_implicit_session);
    let r = resolve_session(None, &messages, None, None, &caching, true);
    assert!(r.session_id.is_none() && r.request_prefix_hash.is_none());
    assert!(!r.is_implicit_session);
    // Nothing to derive a session from.
    let r = resolve_session(None, &[], None, None, &caching, false);
    assert!(r.session_id.is_none() && r.request_prefix_hash.is_none());
    assert!(!r.is_implicit_session);
}

// ---- the session cache of the orchestrator ----

fn make_orchestrator_service(ttl_seconds: u64, max_entries: usize) -> OrchestratorService {
    OrchestratorService::with_routing(
        None,
        None,
        Some(ttl_seconds),
        brightstaff::session_cache::memory::MemorySessionCache::new(max_entries),
        None,
    )
}

const NOW: u64 = 1_700_000_000_000;

fn binding(model: &str, route_name: Option<&str>) -> SessionBinding {
    SessionBinding {
        anchor_model: model.to_string(),
        default_model: model.to_string(),
        route_name: route_name.map(|r| r.to_string()),
        prefix_hash: None,
        last_used: NOW,
        cached_tokens: 0,
        baseline_usd: Natural::new(0),
        switch_spend_usd: Natural::new(0),
        switches: 0,
        session_cost_usd: Natural::new(0),
        history: Vec::new(),
    }
}

#[test]
fn test_cache_miss_returns_none() {
    let svc = make_orchestrator_service(600, 100);
    assert!(svc.get_binding("unknown-session", None, NOW).is_none());
}

#[test]
fn test_cache_hit_returns_binding() {
    let mut svc = make_orchestrator_service(600, 100);
    svc.store_binding("s1", None, binding("gpt-4o", Some("code")), None, NOW);

    let cached = svc.get_binding("s1", None, NOW).unwrap();
    assert_eq!(cached.anchor_model, "gpt-4o");
    assert_eq!(cached.route_name, Some("code".to_string()));
}

#[test]
fn test_cache_expired_entry_returns_none() {
    let mut svc = make_orchestrator_service(0, 100);
    svc.store_binding("s1", None, binding("gpt-4o", None), None, NOW);
    assert!(svc.get_binding("s1", None, NOW).is_none());
}

#[test]
fn test_expired_entries_not_returned() {
    let mut svc = make_orchestrator_service(0, 100);
    svc.store_binding("s1", None, binding("gpt-4o", None), None, NOW);
    svc.store_binding("s2", None, binding("sonnet", None), None, NOW);

    assert!(svc.get_binding("s1", None, NOW).is_none());
    assert!(svc.get_binding("s2", None, NOW).is_none());
}

#[test]
fn test_cache_evicts_oldest_when_full() {
    let mut svc = make_orchestrator_service(600, 2);
    svc.store_binding("s1", None, binding("model-a", None), None, NOW);
    svc.store_binding("s2", None, binding("model-b", None), None, NOW + 10);
    svc.store_binding("s3", None, binding("model-c", None), None, NOW + 10);

    assert!(svc.get_binding("s1", None, NOW + 10).is_none());
    assert!(svc.get_binding("s2", None, NOW + 10).is_some());
    assert!(svc.get_binding("s3", None, NOW + 10).is_some());
}

#[test]
fn test_cache_update_existing_session_does_not_evict() {
    let mut svc = make_orchestrator_service(600, 2);
    svc.store_binding("s1", None, binding("model-a", None), None, NOW);
    svc.store_binding("s2", None, binding("model-b", None), None, NOW);
    svc.store_binding(
        "s1",
        None,
        binding("model-a-updated", Some("route")),
        None,
        NOW,
    );

    let s1 = svc.get_binding("s1", None, NOW).unwrap();
    assert_eq!(s1.anchor_model, "model-a-updated");
    assert!(svc.get_binding("s2", None, NOW).is_some());
}

#[test]
fn test_gc_ttl_override_extends_binding_lifetime() {
    // Global bound of 0 would reclaim immediately; the per-call override keeps it.
    let mut svc = make_orchestrator_service(0, 100);
    svc.store_binding("s1", None, binding("gpt-4o", None), Some(600_000), NOW);
    let cached = svc.get_binding("s1", None, NOW).unwrap();
    assert_eq!(cached.anchor_model, "gpt-4o");
}

#[test]
fn test_binding_fields_round_trip_through_cache() {
    let mut svc = make_orchestrator_service(600, 100);
    let mut b = binding("gpt-4o", None);
    b.prefix_hash = Some(0xdead_beef);
    b.cached_tokens = 12_345;
    b.baseline_usd = Natural::new(usd(1_500_000));
    b.switch_spend_usd = Natural::new(usd(420_000));
    b.switches = 3;
    b.session_cost_usd = Natural::new(usd(2_750_000));
    svc.store_binding("s1", None, b, None, NOW);

    let cached = svc.get_binding("s1", None, NOW).unwrap();
    assert_eq!(cached.prefix_hash, Some(0xdead_beef));
    assert_eq!(cached.cached_tokens, 12_345);
    assert!(same(&cached.baseline_usd, usd(1_500_000)));
    assert!(same(&cached.switch_spend_usd, usd(420_000)));
    assert_eq!(cached.switches, 3);
    assert!(same(&cached.session_cost_usd, usd(2_750_000)));
}

#[test]
fn tenants_do_not_share_sessions() {
    assert_eq!(session_key(None, "s"), "s");
    assert_eq!(session_key(Some("acme"), "s"), "acme:s");
    let mut svc = make_orchestrator_service(600, 100);
    svc.store_binding("s1", Some("a"), binding("m", None), None, NOW);
    assert!(svc.get_binding("s1", Some("a"), NOW).is_some());
    assert!(svc.get_binding("s1", Some("b"), NOW).is_none());
    assert!(svc.get_binding("s1", None, NOW).is_none());
    assert_eq!(svc.effective_session_ttl(None), 600);
    assert_eq!(svc.effective_session_ttl(Some(5)), 5);
    assert_eq!(OrchestratorService::new().effective_session_ttl(None), 600);
}

// ---- the cache of routing decisions ----

fn make_route(model: &str, cached_at_ms: u64) -> CachedRoute {
    CachedRoute {
        model_name: model.to_string(),
        route_name: None,
        cached_at_ms,
    }
}

#[test]
fn memory_cache_miss_returns_none() {
    let cache = MemorySessionCache::new(600_000, 100);
    assert!(cache.get("unknown", NOW).is_none());
}

#[test]
fn memory_cache_hit_returns_entry() {
    let mut cache = MemorySessionCache::new(600_000, 100);
    cache.put("s1", make_route("gpt-4o", NOW));
    let hit = cache.get("s1", NOW).unwrap();
    assert_eq!(hit.model_name, "gpt-4o");
}

#[test]
fn memory_cache_expired_returns_none() {
    let mut cache = MemorySessionCache::new(0, 100);
    cache.put("s1", make_route("gpt-4o", NOW));
    assert!(cache.get("s1", NOW).is_none());
}

#[test]
fn memory_cache_cleanup_removes_expired() {
    let mut cache = MemorySessionCache::new(0, 100);
    cache.put("s1", make_route("gpt-4o", NOW));
    cache.put("s2", make_route("sonnet", NOW));
    assert_eq!(cache.cleanup_expired(NOW), 2);
    assert_eq!(cache.cleanup_expired(NOW), 0);
}

#[test]
fn memory_cache_evicts_oldest_when_full() {
    let mut cache = MemorySessionCache::new(600_000, 2);
    cache.put("s1", make_route("model-a", NOW));
    cache.put("s2", make_route("model-b", NOW + 10));
    cache.put("s3", make_route("model-c", NOW + 10));
    assert!(
        cache.get("s1", NOW + 10).is_none(),
        "s1 should have been evicted"
    );
    assert!(cache.get("s2", NOW + 10).is_some());
    assert!(cache.get("s3", NOW + 10).is_some());
}

#[test]
fn memory_cache_remove_deletes_entry() {
    let mut cache = MemorySessionCache::new(600_000, 100);
    cache.put("s1", make_route("gpt-4o", NOW));
    cache.remove("s1");
    assert!(cache.get("s1", NOW).is_none());
}

#[test]
fn shared_entries_are_fresh_then_stale() {
    assert_eq!(make_key("s1"), "plano:affinity:s1");
    let t = entry_times(100, 60, 3);
    assert_eq!(t.logical_expires_at, 160);
    assert_eq!(t.physical_ttl_secs, 180);
    assert!(!is_stale(Some(160), 159));
    assert!(is_stale(Some(160), 160));
    assert!(!is_stale(None, 160));
    assert_eq!(entry_times(100, 0, 3).logical_expires_at, 101);
}

// ---- route selection ----

fn pref(name: &str, models: &[&str]) -> TopLevelRoutingPreference {
    TopLevelRoutingPreference {
        name: name.to_string(),
        description: format!("about {}", name),
        models: models.iter().map(|m| m.to_string()).collect(),
        selection_policy: SelectionPreference::Unranked,
    }
}

fn selection(names: &[&str]) -> OrchestratorSelection {
    OrchestratorSelection {
        routes: names
            .iter()
            .map(|n| (n.to_string(), "m".to_string()))
            .collect(),
        skills: Vec::new(),
    }
}

#[test]
fn request_preferences_override_configured_ones() {
    let svc = OrchestratorService::with_routing(
        Some(vec![pref("code", &["a"]), pref("code", &["b", "c"])]),
        None,
        None,
        brightstaff::session_cache::memory::MemorySessionCache::new(1),
        Some("x-tenant".to_string()),
    );
    assert_eq!(svc.tenant_header(), Some("x-tenant"));
    let messages = [user("hi")];
    let asked = svc.plan_route(&messages, None).unwrap();
    assert_eq!(asked.len(), 1);
    assert_eq!(asked[0].model, "b");
    assert_eq!(asked[0].routing_preferences[0].name, "code");
    assert_eq!(asked[0].routing_preferences[0].description, "about code");
    assert!(svc.plan_route(&[], None).is_none());
    assert!(svc.plan_route(&messages, Some(&Vec::new())).is_none());
    assert!(svc.model_rates("b").is_none());
    assert!(OrchestratorService::needs_orchestration(
        &messages,
        Some(&asked)
    ));
    assert!(!OrchestratorService::needs_orchestration(&[], Some(&asked)));
    assert!(!OrchestratorService::needs_orchestration(
        &messages,
        Some(&Vec::new())
    ));
    assert!(!OrchestratorService::needs_orchestration(&messages, None));

    let ctx = RankContext::default();
    let (name, models) = svc
        .determine_route(Some(&selection(&["code", "other"])), None, &ctx)
        .unwrap();
    assert_eq!(name, "code");
    assert_eq!(models, vec!["b", "c"]);
    let own = vec![pref("code", &["mine"])];
    let (_, models) = svc
        .determine_route(Some(&selection(&["code"])), Some(&own), &ctx)
        .unwrap();
    assert_eq!(models, vec!["mine"]);
    assert!(svc
        .determine_route(Some(&selection(&["unknown"])), None, &ctx)
        .is_none());
    assert!(svc
        .determine_route(Some(&selection(&[])), None, &ctx)
        .is_none());
    assert!(svc.determine_route(None, None, &ctx).is_none());
}

#[test]
fn selection_without_routes_and_skills_is_empty() {
    assert!(OrchestratorSelection::default().is_empty());
    assert!(!selection(&["r"]).is_empty());
    let skills = OrchestratorSelection {
        routes: Vec::new(),
        skills: vec!["pdf".to_string()],
    };
    assert!(!skills.is_empty());
}

fn usage(model: &str) -> ModelUsagePreference {
    ModelUsagePreference {
        model: model.to_string(),
        routing_preferences: vec![RoutingPreference {
            name: "r".to_string(),
            description: "d".to_string(),
        }],
    }
}

#[test]
fn router_asks_only_where_there_is_a_choice() {
    let none = RouterService::new(&Vec::new(), None, None);
    let messages = [user("hi")];
    assert!(matches!(
        none.plan_route(&messages, Some(vec![usage("a")]), None),
        RouterPlan::NoRouting
    ));
    match none.plan_route(&messages, Some(vec![usage("a"), usage("b")]), None) {
        RouterPlan::Ask(Some(asked)) => assert_eq!(asked.len(), 2),
        other => panic!("unexpected plan {:?}", other),
    }
    assert!(matches!(
        none.plan_route(&[], Some(vec![usage("a"), usage("b")]), None),
        RouterPlan::NoRouting
    ));
    let providers = vec![LlmProvider {
        name: "p".to_string(),
        routing_preferences: Some(Vec::new()),
    }];
    let legacy = RouterService::new(&providers, None, None);
    assert!(matches!(
        legacy.plan_route(&messages, None, None),
        RouterPlan::Ask(None)
    ));
    let top = RouterService::new(&providers, Some(vec![pref("code", &["a", "b"])]), None);
    assert!(matches!(
        top.plan_route(&messages, Some(vec![usage("a"), usage("b")]), None),
        RouterPlan::Ask(None)
    ));
    let ctx = RankContext::default();
    let parsed = || Some(("code".to_string(), "sentinel".to_string()));
    assert_eq!(
        top.determine_route(parsed(), None, &ctx),
        Some(("code".to_string(), "a".to_string()))
    );
    assert_eq!(
        none.determine_route(parsed(), None, &ctx),
        Some(("code".to_string(), "sentinel".to_string()))
    );
    assert_eq!(none.determine_route(None, None, &ctx), None);
}

#[test]
fn routing_errors_read_well() {
    let e = OrchestrationError::OrchestratorModelError(OrchestratorModelError::JsonError(
        "eof".to_string(),
    ));
    assert_eq!(
        e.message(),
        "Orchestrator model error: Failed to parse JSON: eof"
    );
    assert_eq!(OrchestrationError::Http("down".to_string()).message(), "down");
    assert_eq!(
        RoutingError::RouterModelError("bad".to_string()).message(),
        "Router model error: bad"
    );
    assert_eq!(RoutingError::Http("down".to_string()).message(), "down");
}

fn pairs(headers: &[(String, String)]) -> Vec<(&str, &str)> {
    headers
        .iter()
        .map(|(n, v)| (n.as_str(), v.as_str()))
        .collect()
}

#[test]
fn routing_requests_carry_valid_headers() {
    assert_eq!(
        pairs(&router_headers("arch", "00-ab-cd-01", "id-1")),
        [
            ("content-type", "application/json"),
            ("x-arch-llm-provider-hint", "arch"),
            ("traceparent", "00-ab-cd-01"),
            ("x-request-id", "id-1"),
            ("model", "arch-router"),
        ]
    );
    assert_eq!(
        pairs(&router_headers("a\nb", "\u{7f}", "tab\there \u{e9}")),
        [
            ("content-type", "application/json"),
            ("x-request-id", "tab\there \u{e9}"),
            ("model", "arch-router"),
        ]
    );
    assert_eq!(
        pairs(&orchestrator_headers("bad\r", Some("bad\0"))),
        [
            ("content-type", "application/json"),
            ("x-arch-llm-provider-hint", "plano-orchestrator"),
            ("model", "plano-orchestrator"),
        ]
    );
    assert_eq!(
        pairs(&orchestrator_headers("own", Some("id")))[1..3],
        [
            ("x-arch-llm-provider-hint", "own"),
            ("x-request-id", "id"),
        ]
    );
    assert_eq!(orchestrator_headers("own", None).len(), 3);
}
