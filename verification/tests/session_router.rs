//! Session-cache-aware routing.

use brightstaff::chat::{Message, MessageContent, Role};
use brightstaff::handlers::llm::session_router::{
    actual_context_tokens, capability_for_model, decide, request_text, route, warmth,
    warmth_window, ProviderCacheCapability, RouteFacts, RouteTables, RoutingBudget, SwitchReason,
    GC_SLACK,
};
use brightstaff::handlers::llm::session_stickiness::estimate_context_tokens;
use brightstaff::natural::{Natural, Ratio};
use brightstaff::router::model_metrics::ModelPricing;
use brightstaff::session_cache::memory::MemorySessionCache;
use brightstaff::session_cache::{RouteVisit, SessionBinding};

const NOW: u64 = 1_700_000_000_000;
const SECOND: u64 = 1_000;

/// Money in 10^-18 USD, given in millionths of a dollar.
fn usd(micro: u128) -> Natural {
    Natural::new(micro * 1_000_000_000_000)
}

fn same(a: &Natural, b: &Natural) -> bool {
    a.at_least(b) && b.at_least(a)
}

fn cap_5m_1h() -> ProviderCacheCapability {
    ProviderCacheCapability {
        idle_ttl: 300 * SECOND,
        hard_ttl: 3600 * SECOND,
        extended_retention: false,
        extended_ttl: 3600 * SECOND,
    }
}

fn binding_used_ago(secs: u64) -> SessionBinding {
    SessionBinding {
        anchor_model: "anthropic/sonnet-4-5".to_string(),
        default_model: "anthropic/sonnet-4-5".to_string(),
        route_name: None,
        prefix_hash: Some(1),
        last_used: NOW - secs * SECOND,
        cached_tokens: 100_000,
        baseline_usd: usd(1_000_000),
        switch_spend_usd: usd(0),
        switches: 0,
        session_cost_usd: usd(0),
        history: Vec::new(),
    }
}

#[test]
fn warm_within_idle_window() {
    let (warm, idle) = warmth(&binding_used_ago(60), &cap_5m_1h(), NOW);
    assert!(warm);
    assert_eq!(idle, 60 * SECOND);
}

#[test]
fn cold_past_idle_window() {
    let (warm, _) = warmth(&binding_used_ago(600), &cap_5m_1h(), NOW);
    assert!(!warm);
}

#[test]
fn extended_retention_keeps_warm_past_idle() {
    let cap = ProviderCacheCapability {
        extended_retention: true,
        ..cap_5m_1h()
    };
    // 10 minutes idle: cold under 5m, warm under the 1h extended window.
    let (warm, _) = warmth(&binding_used_ago(600), &cap, NOW);
    assert!(warm);
}

#[test]
fn capability_resolves_from_model_prefix() {
    // Known provider prefix resolves; unknown falls back to the default.
    let known = vec![(
        "anthropic".to_string(),
        ProviderCacheCapability::default(),
    )];
    let anthropic = capability_for_model(&known, "anthropic/sonnet-4-5");
    assert_eq!(anthropic, ProviderCacheCapability::default());
    let unknown = capability_for_model(&known, "madeup/model-x");
    assert_eq!(unknown, ProviderCacheCapability::default());
}

#[test]
fn known_provider_has_its_own_window() {
    let cap = ProviderCacheCapability {
        idle_ttl: 7,
        hard_ttl: 5,
        extended_retention: false,
        extended_ttl: 9,
    };
    let known = vec![("acme".to_string(), cap)];
    assert_eq!(capability_for_model(&known, "acme/one"), cap);
    assert_eq!(capability_for_model(&known, "acme"), cap);
    assert_eq!(warmth_window(&cap), 5);
    assert_eq!(warmth_window(&ProviderCacheCapability::default()), 300_000);
}

// ---- budget behavior ----
//
// Anchor `expensive` cached rate 0.3, candidate `pricey` input 5.0, candidate `cheap`
// input 0.1. With a 100k-token context the paid switch to `pricey` costs
// 0.1M * (5.0 - 0.3) = $0.47; the `cheap` switch is 0.1M * (0.1 - 0.3) = -$0.02 (free).
// Each warm turn grows the never-switch baseline by 0.1M * 0.3 = $0.03.
fn tables() -> RouteTables {
    let price = |input: u64, output: u64, cached: u64| ModelPricing {
        input_per_million: input,
        output_per_million: output,
        cached_input_per_million: Some(cached),
    };
    RouteTables {
        prices: vec![
            (
                "anthropic/expensive".to_string(),
                price(3_000_000, 15_000_000, 300_000),
            ),
            (
                "openai/pricey".to_string(),
                price(5_000_000, 15_000_000, 500_000),
            ),
            ("google/cheap".to_string(), price(100_000, 400_000, 10_000)),
        ],
        capabilities: Vec::new(),
    }
}

fn routing_budget(pct: u128) -> RoutingBudget {
    RoutingBudget {
        max_overhead_pct: Ratio::new(pct, 1),
        replenish_on_rebind: true,
        cache_read_discount: 100_000,
        record_counterfactual: false,
    }
}

fn seeded(baseline: u128, spend: u128, idle_secs: u64) -> MemorySessionCache {
    let mut store = MemorySessionCache::new(100);
    store.put(
        "s1",
        SessionBinding {
            anchor_model: "anthropic/expensive".to_string(),
            default_model: "anthropic/expensive".to_string(),
            route_name: None,
            prefix_hash: Some(1),
            last_used: NOW - idle_secs * SECOND,
            cached_tokens: 100_000,
            baseline_usd: usd(baseline),
            switch_spend_usd: usd(spend),
            switches: 0,
            session_cost_usd: usd(0),
            history: Vec::new(),
        },
        NOW,
        3600 * SECOND,
    );
    store
}

fn facts_for(candidate: &str) -> RouteFacts<'_> {
    RouteFacts {
        session_id: Some("s1"),
        tenant_id: None,
        prefix_hash: Some(1),
        context_tokens: 0,
        candidate_model: candidate,
        candidate_route: None,
    }
}

#[test]
fn paid_switch_within_cap_is_allowed_and_accrues_spend() {
    // Baseline $2.00 already accrued; this turn adds $0.03 -> $2.03. At 25% the
    // ceiling is $0.5075, which covers the $0.47 switch to `pricey`.
    let mut store = seeded(2_000_000, 0, 30);
    let d = route(
        &mut store,
        Some(&routing_budget(25)),
        &facts_for("openai/pricey"),
        &tables(),
        NOW,
    );
    assert_eq!(d.model, "openai/pricey");
    assert!(d.warm);
    assert_eq!(d.switches, 1);
    assert!(same(&d.switch_spend_usd, &usd(470_000)));
    assert!(same(&d.baseline_usd, &usd(2_030_000)));
    assert_eq!(d.reason, SwitchReason::WithinCap);
}

#[test]
fn paid_switch_over_cap_retains_anchor() {
    // Baseline $1.00 (+$0.03 this turn). At 25% the ceiling is ~$0.2575 < $0.47.
    let mut store = seeded(1_000_000, 0, 30);
    let d = route(
        &mut store,
        Some(&routing_budget(25)),
        &facts_for("openai/pricey"),
        &tables(),
        NOW,
    );
    assert_eq!(d.model, "anthropic/expensive");
    assert!(d.warm);
    assert_eq!(d.switches, 0);
    // Vetoed switch spends nothing.
    assert!(same(&d.switch_spend_usd, &usd(0)));
    assert_eq!(d.reason.as_str(), "over_cap");
    assert_eq!(d.reason.decision(), "retained");
}

#[test]
fn cheaper_switch_is_free_and_does_not_change_spend() {
    let mut store = seeded(1_000_000, 100_000, 30);
    let d = route(
        &mut store,
        Some(&routing_budget(25)),
        &facts_for("google/cheap"),
        &tables(),
        NOW,
    );
    assert_eq!(d.model, "google/cheap");
    assert!(d.warm);
    assert_eq!(d.switches, 1);
    // Free switches never touch the running spend — it stays at 0.10.
    assert!(same(&d.switch_spend_usd, &usd(100_000)));
}

#[test]
fn cold_session_resets_totals_and_follows_router() {
    // 10 minutes idle: past the 5m idle window -> cold. The prior episode spent
    // its overhead; the fresh episode resets baseline and spend to zero.
    let mut store = seeded(5_000_000, 3_000_000, 600);
    let d = route(
        &mut store,
        Some(&routing_budget(25)),
        &facts_for("openai/pricey"),
        &tables(),
        NOW,
    );
    assert_eq!(d.model, "openai/pricey");
    assert!(!d.warm);
    assert_eq!(d.switches, 0);
    assert!(same(&d.baseline_usd, &usd(0)), "baseline reset");
    assert!(same(&d.switch_spend_usd, &usd(0)), "spend reset");
}

#[test]
fn no_session_honors_candidate() {
    let mut store = seeded(1_000_000, 0, 30);
    let facts = RouteFacts {
        session_id: None,
        ..facts_for("openai/pricey")
    };
    let d = route(&mut store, Some(&routing_budget(1)), &facts, &tables(), NOW);
    assert_eq!(d.model, "openai/pricey");
    assert!(!d.warm);
}

#[test]
fn baseline_grows_on_default_model_not_current_anchor() {
    // A session that started on `expensive` (default) but has since switched to
    // `cheap` (current anchor). The never-switch baseline must keep growing at the
    // *default* model's cached rate (0.3/M), not the cheap anchor's (0.01/M).
    let mut store = MemorySessionCache::new(100);
    store.put(
        "s1",
        SessionBinding {
            anchor_model: "google/cheap".to_string(),
            default_model: "anthropic/expensive".to_string(),
            route_name: None,
            prefix_hash: Some(1),
            last_used: NOW,
            cached_tokens: 100_000,
            baseline_usd: usd(0),
            switch_spend_usd: usd(0),
            switches: 1,
            session_cost_usd: usd(0),
            history: Vec::new(),
        },
        NOW,
        3600 * SECOND,
    );
    // Router agrees with the current anchor -> same-anchor, no switch.
    let d = route(
        &mut store,
        Some(&routing_budget(25)),
        &facts_for("google/cheap"),
        &tables(),
        NOW,
    );
    assert_eq!(d.model, "google/cheap");
    assert!(d.warm);
    assert_eq!(d.switches, 1);
    // 100_000 tokens x $0.30/M (default `expensive`) = $0.03 — not $0.001 (cheap).
    assert!(same(&d.baseline_usd, &usd(30_000)));
    assert_eq!(d.default_model, "anthropic/expensive");
}

#[test]
fn return_to_warm_model_in_history_is_cheap_enough_to_allow() {
    // Warm on `expensive`, but `pricey` was used recently and still holds the whole
    // 100k context. Baseline $0.40 (+$0.03 this turn = $0.43); at 25% the ceiling is
    // ~$0.1075. Returning to `pricey` re-reads the 100k at its *cached* rate (0.5),
    // so the switch costs 100k x (0.5 - 0.3)/1M = $0.02 — under the ceiling, allowed.
    // A cold switch would re-read at 5.0 -> $0.47 and be vetoed.
    let mut store = MemorySessionCache::new(100);
    store.put(
        "s1",
        SessionBinding {
            anchor_model: "anthropic/expensive".to_string(),
            default_model: "anthropic/expensive".to_string(),
            route_name: None,
            prefix_hash: Some(1),
            last_used: NOW - 30 * SECOND,
            cached_tokens: 100_000,
            baseline_usd: usd(400_000),
            switch_spend_usd: usd(0),
            switches: 1,
            session_cost_usd: usd(0),
            history: vec![RouteVisit {
                model: "openai/pricey".to_string(),
                last_used: NOW - 30 * SECOND,
                cached_tokens: 100_000,
            }],
        },
        NOW,
        3600 * SECOND,
    );
    let d = route(
        &mut store,
        Some(&routing_budget(25)),
        &facts_for("openai/pricey"),
        &tables(),
        NOW,
    );
    assert_eq!(d.model, "openai/pricey", "warm return should be allowed");
    assert_eq!(d.switches, 2);
    assert!(same(&d.switch_spend_usd, &usd(20_000)));
    // The candidate's own history entry is refreshed to the current model.
    assert!(d.history.iter().any(|v| v.model == "openai/pricey"));
}

#[test]
fn drifted_prefix_frees_the_switch_and_forgets_the_history() {
    let mut store = seeded(1_000_000, 0, 30);
    let facts = RouteFacts {
        prefix_hash: Some(2),
        ..facts_for("openai/pricey")
    };
    let d = route(&mut store, Some(&routing_budget(25)), &facts, &tables(), NOW);
    assert_eq!(d.model, "openai/pricey");
    assert!(!d.warm);
    assert_eq!(d.reason, SwitchReason::Cold);
    assert_eq!(d.history.len(), 1);
}

#[test]
fn missing_price_or_budget_follows_the_router() {
    let mut store = seeded(1_000_000, 0, 30);
    let d = route(
        &mut store,
        Some(&routing_budget(25)),
        &facts_for("unknown/model"),
        &tables(),
        NOW,
    );
    assert_eq!(d.model, "unknown/model");
    assert_eq!(d.reason.as_str(), "no_pricing");
    assert_eq!(d.switches, 1);

    let mut store = seeded(1_000_000, 0, 30);
    let d = route(&mut store, None, &facts_for("openai/pricey"), &tables(), NOW);
    assert_eq!(d.model, "openai/pricey");
    assert_eq!(d.reason.as_str(), "free");
    assert!(same(&d.baseline_usd, &usd(1_000_000)));
}

#[test]
fn vetoed_route_is_recorded_on_request() {
    let binding = {
        let store = seeded(1_000_000, 0, 30);
        store.get("s1", NOW).unwrap()
    };
    let budget = RoutingBudget {
        record_counterfactual: true,
        ..routing_budget(25)
    };
    let facts = RouteFacts {
        candidate_route: Some("code"),
        ..facts_for("openai/pricey")
    };
    let d = decide(Some(&binding), Some(&budget), &facts, &tables(), NOW);
    assert_eq!(d.counterfactual.as_deref(), Some("openai/pricey (code)"));
    let facts = RouteFacts {
        candidate_route: Some("none"),
        ..facts_for("openai/pricey")
    };
    let d = decide(Some(&binding), Some(&budget), &facts, &tables(), NOW);
    assert_eq!(d.counterfactual.as_deref(), Some("openai/pricey"));
    assert_eq!(d.route_name, None);
}

#[test]
fn totals_are_carried_where_they_are_not_replenished() {
    let mut store = seeded(5_000_000, 3_000_000, 600);
    let budget = RoutingBudget {
        replenish_on_rebind: false,
        ..routing_budget(25)
    };
    let d = route(
        &mut store,
        Some(&budget),
        &facts_for("openai/pricey"),
        &tables(),
        NOW,
    );
    assert!(!d.warm);
    assert!(same(&d.baseline_usd, &usd(5_000_000)));
    assert!(same(&d.switch_spend_usd, &usd(3_000_000)));
    assert_eq!(d.default_model, "anthropic/expensive");
}

#[test]
fn overhead_stays_within_the_cap_over_a_conversation() {
    // Bouncing between two models for a hundred turns never spends more than
    // a quarter of what staying would have cost.
    let mut store = MemorySessionCache::new(10);
    let budget = routing_budget(25);
    let mut now = NOW;
    for turn in 0..100u32 {
        let candidate = if turn % 2 == 0 {
            "anthropic/expensive"
        } else {
            "openai/pricey"
        };
        let facts = RouteFacts {
            context_tokens: 1_000 * u64::from(turn + 1),
            ..facts_for(candidate)
        };
        let d = route(&mut store, Some(&budget), &facts, &tables(), now);
        let spent = d.switch_spend_usd.times(&Natural::new(100));
        let allowed = d.baseline_usd.times(&Natural::new(25));
        assert!(allowed.at_least(&spent), "turn {}", turn);
        now += 20 * SECOND;
    }
}

#[test]
fn binding_outlives_the_warmth_window() {
    let mut store = MemorySessionCache::new(10);
    let d = route(
        &mut store,
        None,
        &facts_for("openai/pricey"),
        &tables(),
        NOW,
    );
    assert_eq!(d.gc_ttl, 300 * SECOND + GC_SLACK);
    assert!(store.get("s1", NOW + 300 * SECOND).is_some());
    assert!(store.get("s1", NOW + 300 * SECOND + GC_SLACK).is_none());
}

#[test]
fn context_estimate_is_a_quarter_of_the_bytes() {
    let message = |text: &str| Message {
        role: Role::User,
        content: Some(MessageContent::Text(text.to_string())),
        name: None,
        tool_calls: None,
        tool_call_id: None,
    };
    let silent = Message {
        content: None,
        ..message("")
    };
    let messages = [message("äöü"), silent, message("abc")];
    assert_eq!(request_text(&messages), "äöü\nabc");
    assert_eq!(actual_context_tokens(&messages, Some(9)), 9);
    // Ten bytes.
    assert_eq!(actual_context_tokens(&messages, None), 2);
    assert_eq!(estimate_context_tokens(&messages, None), 2);
}
