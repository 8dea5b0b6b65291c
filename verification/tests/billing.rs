//! Prices, counters, limits and the flushing of usage.

use brightstaff::billing::budget_checker::{format_uuids, BudgetChecker, LimitStatus};
use brightstaff::billing::counters::{period_start, CounterKey, Day, SpendingCounters};
use brightstaff::billing::flusher::{UsageEvent, UsageFlusher, LARGE_BATCH};
use brightstaff::billing::price_calculator::{PriceCalculator, PricedUpdate, UnpricedRow};
use brightstaff::handlers::usage_record::{record_usage, UsageRecordRequest};
use brightstaff::pricing::{
    custom_price, list_entry, to_micro_cents, CustomPricing, PricingInfo, PricingRegistry,
};

const TODAY: Day = Day {
    year: 2025,
    month: 3,
    day: 14,
};

#[test]
fn periods_start_with_the_day_or_the_month() {
    assert_eq!(period_start("daily", TODAY), Some(TODAY));
    assert_eq!(
        period_start("monthly", TODAY),
        Some(Day { day: 1, ..TODAY })
    );
    assert_eq!(period_start("weekly", TODAY), None);
}

#[test]
fn usage_adds_up_by_entity_and_period() {
    let mut c = SpendingCounters::new();
    assert_eq!(c.get_current_on("user", 1, "daily", TODAY), 0);
    assert_eq!(c.record_usage_on("user", 1, "daily", 5, TODAY), 5);
    assert_eq!(c.record_usage_on("user", 1, "daily", 7, TODAY), 12);
    assert_eq!(c.record_usage_on("user", 2, "daily", 1, TODAY), 1);
    assert_eq!(c.record_usage_on("user", 1, "monthly", 100, TODAY), 100);
    assert_eq!(c.get_current_on("user", 1, "daily", TODAY), 12);
    // The month runs on, the day does not.
    let tomorrow = Day { day: 15, ..TODAY };
    assert_eq!(c.get_current_on("user", 1, "daily", tomorrow), 0);
    assert_eq!(c.get_current_on("user", 1, "monthly", tomorrow), 100);
    assert!(c.check_budget_on("user", 1, "daily", 13, TODAY));
    assert!(!c.check_budget_on("user", 1, "daily", 12, TODAY));
    assert!(c.check_budget_on("user", 1, "weekly", 0, TODAY));
    assert!(c.check_budget_on("user", 3, "daily", 0, TODAY));
}

#[test]
fn usage_of_today_is_found_today() {
    let mut c = SpendingCounters::new();
    // The month is asked for, so that midnight makes no difference.
    let total = c.record_usage("project", 9, "monthly", 4);
    assert_eq!(total, 4);
    assert_eq!(c.get_current("project", 9, "monthly"), 4);
    assert!(c.check_budget("project", 9, "monthly", 5));
    assert!(!c.check_budget("project", 9, "monthly", 4));
}

#[test]
fn totals_wrap_around() {
    let mut c = SpendingCounters::new();
    c.record_usage_on("user", 1, "daily", i64::MAX, TODAY);
    assert_eq!(c.record_usage_on("user", 1, "daily", 1, TODAY), i64::MIN);
}

#[test]
fn failed_flush_restores_the_counters() {
    let mut c = SpendingCounters::new();
    c.record_usage_on("user", 1, "daily", 5, TODAY);
    c.record_usage_on("user", 2, "daily", 0, TODAY);
    c.record_usage_on("project", 1, "monthly", 8, TODAY);
    let mut deltas = c.snapshot_and_reset();
    deltas.sort_by_key(|d| d.1);
    assert_eq!(deltas.len(), 2);
    assert_eq!((deltas[0].0.entity_id, deltas[0].1), (1, 5));
    assert_eq!(deltas[1].0.period_start.day, 1);
    assert_eq!(c.get_current_on("user", 1, "daily", TODAY), 0);
    c.record_usage_on("user", 1, "daily", 2, TODAY);
    c.restore_deltas(&deltas);
    assert_eq!(c.get_current_on("user", 1, "daily", TODAY), 7);
    assert_eq!(c.get_current_on("project", 1, "monthly", TODAY), 8);
}

#[test]
fn counters_are_hydrated() {
    let mut c = SpendingCounters::new();
    let record = |spent| {
        (
            CounterKey {
                entity_type: "user".to_string(),
                entity_id: 1,
                period_type: "daily".to_string(),
                period_start: TODAY,
            },
            spent,
        )
    };
    c.hydrate(&vec![record(3), record(4)]);
    assert_eq!(c.get_current_on("user", 1, "daily", TODAY), 7);
}

#[test]
fn used_up_project_limits_block() {
    let limit = |entity: &str, id: u128, cents: i64, spent: Option<i64>| LimitStatus {
        entity_type: entity.to_string(),
        entity_id: id,
        limit_cents: cents,
        spent,
    };
    let mut checker = BudgetChecker::default();
    assert!(checker.get_blocked_projects().is_empty());
    assert_eq!(
        checker.check_budgets(&vec![
            limit("project", 1, 2, Some(20_000)),
            limit("project", 2, 2, Some(19_999)),
            limit("user", 3, 2, Some(99_999)),
            limit("project", 4, 2, None),
            limit("project", 5, 0, None),
            limit("project", 1, 1, Some(20_000)),
        ]),
        2
    );
    let mut blocked = checker.get_blocked_projects();
    blocked.sort();
    assert_eq!(blocked, vec![1, 5]);
    assert!(checker.is_blocked(1) && !checker.is_blocked(2));
    assert_eq!(
        format_uuids(&vec![0xff]),
        vec!["00000000-0000-0000-0000-0000000000ff"]
    );
    assert_eq!(checker.check_budgets(&Vec::new()), 0);
    assert!(!checker.is_blocked(1));
}

fn registry() -> PricingRegistry {
    let mut r = PricingRegistry::new();
    let count = r.load(vec![
        list_entry("openai", "gpt", Some(1), None),
        list_entry("openai", "gpt", Some(250_000_000), Some(1_000_000_000)),
        list_entry("acme", "m", None, Some(3)),
    ]);
    assert_eq!(count, 2);
    r
}

#[test]
fn prices_are_listed_and_overridden() {
    let r = registry();
    assert_eq!(
        r.get_pricing("openai", "gpt"),
        Some(PricingInfo {
            input_price_per_token: 250_000_000,
            output_price_per_token: 1_000_000_000
        })
    );
    assert_eq!(r.get_pricing("openai", "m"), None);
    // 1000 tokens in at 0.00025 cents, 100 out at 0.001: 0.35 cents.
    assert_eq!(
        r.calculate_cost("openai", "gpt", 1000, 100),
        350_000_000_000
    );
    assert_eq!(r.calculate_cost("openai", "other", 1000, 100), 0);
    let project = CustomPricing {
        input_price_per_million: 2_000_000,
        output_price_per_million: 0,
    };
    let global = CustomPricing {
        input_price_per_million: 9,
        output_price_per_million: 9,
    };
    assert_eq!(custom_price(Some(project), Some(global)), Some(project));
    assert_eq!(custom_price(None, Some(global)), Some(global));
    // Two cents for a million tokens.
    assert_eq!(
        r.calculate_cost_with_custom(Some(project), "openai", "gpt", 1_000_000, 5),
        2_000_000_000_000
    );
    assert_eq!(
        r.calculate_cost_with_custom(None, "openai", "gpt", 1000, 100),
        350_000_000_000
    );
}

#[test]
fn costs_are_cut_to_micro_cents() {
    assert_eq!(to_micro_cents(350_000_000_000), 3_500);
    assert_eq!(to_micro_cents(99_999_999), 0);
    assert_eq!(to_micro_cents(-199_999_999), -1);
    assert_eq!(to_micro_cents(i128::MAX), i64::MAX);
    assert_eq!(to_micro_cents(i128::MIN), i64::MIN);
}

#[test]
fn batches_are_priced_and_charged() {
    let row = |id: u128, project: Option<u128>, model: &str, custom| UnpricedRow {
        id,
        project_id: project,
        provider: "openai".to_string(),
        model: model.to_string(),
        input_tokens: 1000,
        output_tokens: 100,
        custom,
    };
    let cheap = Some(CustomPricing {
        input_price_per_million: 1_000_000,
        output_price_per_million: 0,
    });
    let mut c = SpendingCounters::new();
    let updates = PriceCalculator::price_batch(
        &vec![
            row(1, Some(7), "gpt", None),
            row(2, Some(7), "gpt", cheap),
            row(3, None, "gpt", cheap),
            row(4, Some(7), "unknown", None),
        ],
        &registry(),
        &mut c,
        TODAY,
    );
    let costs: Vec<PricedUpdate> = vec![
        PricedUpdate {
            id: 1,
            cost: 350_000_000_000,
        },
        PricedUpdate {
            id: 2,
            cost: 1_000_000_000,
        },
        PricedUpdate {
            id: 3,
            cost: 350_000_000_000,
        },
        PricedUpdate { id: 4, cost: 0 },
    ];
    assert_eq!(updates, costs);
    assert_eq!(c.get_current_on("project", 7, "daily", TODAY), 3_510);
    assert_eq!(c.get_current_on("project", 7, "monthly", TODAY), 3_510);
}

fn record(firewall_mode: bool, user_id: Option<u128>) -> UsageRecordRequest {
    UsageRecordRequest {
        user_id,
        project_id: 7,
        pipe_id: None,
        token_id: None,
        provider: "openai".to_string(),
        model: "gpt".to_string(),
        input_tokens: 1000,
        output_tokens: 100,
        is_streaming: false,
        status_code: Some(200),
        request_id: None,
        firewall_mode,
        api_key_hash: None,
    }
}

#[test]
fn usage_is_charged_unless_it_is_priced_later() {
    let mut c = SpendingCounters::new();
    let event = record_usage(record(true, Some(1)), &registry(), &mut c, TODAY);
    assert_eq!((event.cost, event.is_priced), (0, false));
    assert_eq!(c.get_current_on("project", 7, "daily", TODAY), 0);
    let event = record_usage(record(false, Some(1)), &registry(), &mut c, TODAY);
    assert_eq!((event.cost, event.is_priced), (350_000_000_000, true));
    assert_eq!(event.model, "gpt");
    for (entity, id) in [("project", 7), ("user", 1)] {
        for period in ["daily", "monthly"] {
            assert_eq!(c.get_current_on(entity, id, period, TODAY), 3_500);
        }
    }
    record_usage(record(false, None), &registry(), &mut c, TODAY);
    assert_eq!(c.get_current_on("user", 1, "daily", TODAY), 3_500);
    assert_eq!(c.get_current_on("project", 7, "daily", TODAY), 7_000);
}

fn event(id: u128) -> UsageEvent {
    UsageEvent {
        user_id: None,
        project_id: id,
        pipe_id: None,
        token_id: None,
        provider: "p".to_string(),
        model: "m".to_string(),
        input_tokens: 0,
        output_tokens: 0,
        cost: 0,
        is_streaming: false,
        status_code: None,
        request_id: None,
        is_priced: true,
    }
}

#[test]
fn events_are_flushed_by_time_size_and_end() {
    let mut c = SpendingCounters::new();
    let mut f = UsageFlusher::new();
    assert!(f.on_tick(Vec::new(), &mut c).is_none());
    c.record_usage_on("user", 1, "daily", 5, TODAY);
    let job = f.on_tick(Vec::new(), &mut c).unwrap();
    assert!(job.events.is_empty());
    assert_eq!(job.deltas.len(), 1);
    f.on_failure(job, &mut c);
    assert_eq!(c.get_current_on("user", 1, "daily", TODAY), 5);

    assert!(f.on_event(event(1), &mut c).is_none());
    let job = f.on_tick(vec![event(2)], &mut c).unwrap();
    assert_eq!(job.events.len(), 2);
    // What could not be written is tried again, in its order.
    f.on_failure(job, &mut c);
    assert!(f.on_event(event(3), &mut c).is_none());
    let job = f.on_close(&mut c).unwrap();
    let ids: Vec<u128> = job.events.iter().map(|e| e.project_id).collect();
    assert_eq!(ids, vec![1, 2, 3]);
    assert!(f.on_close(&mut c).is_none());

    let mut jobs = 0;
    for i in 0..LARGE_BATCH {
        if let Some(job) = f.on_event(event(i as u128), &mut c) {
            jobs += 1;
            assert_eq!(job.events.len(), LARGE_BATCH);
        }
    }
    assert_eq!(jobs, 1);
}
