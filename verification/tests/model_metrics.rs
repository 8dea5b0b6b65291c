//! Ranking of models by cost, latency and warm caches.

use brightstaff::natural::Natural;
use brightstaff::router::model_metrics::{
    cache_adjusted_cost, latency_query_url, rank_by_ascending_metric, summed_cost, CatalogModel,
    CatalogPricing, LatencySample, ModelMetricsService, ModelPricing, RankContext,
    SelectionPreference, DEFAULT_CACHE_CREATION_MULTIPLIER,
};

fn names(models: &[&str]) -> Vec<String> {
    models.iter().map(|m| m.to_string()).collect()
}

fn table(entries: &[(&str, u128)]) -> Vec<(String, Option<Natural>)> {
    entries
        .iter()
        .map(|(m, v)| (m.to_string(), Some(Natural::new(*v))))
        .collect()
}

fn make_service(
    cost: Vec<(String, Option<Natural>)>,
    pricing: Vec<(String, ModelPricing)>,
    latency: Vec<(String, Option<Natural>)>,
) -> ModelMetricsService {
    ModelMetricsService {
        cost,
        pricing,
        latency,
        cache_creation_multiplier: DEFAULT_CACHE_CREATION_MULTIPLIER,
    }
}

fn same(n: &Natural, v: u128) -> bool {
    n.at_least(&Natural::new(v)) && Natural::new(v).at_least(n)
}

#[test]
fn test_rank_by_ascending_metric_picks_lowest_first() {
    let models = names(&["a", "b", "c"]);
    let data = table(&[("a", 10_000), ("b", 5_000), ("c", 20_000)]);
    assert_eq!(
        rank_by_ascending_metric(&models, &data),
        vec!["b", "a", "c"]
    );
}

#[test]
fn test_rank_by_ascending_metric_no_data_preserves_order() {
    let models = names(&["x", "y"]);
    assert_eq!(
        rank_by_ascending_metric(&models, &Vec::new()),
        vec!["x", "y"]
    );
}

#[test]
fn test_rank_by_ascending_metric_partial_data() {
    let models = names(&["a", "b"]);
    let data = table(&[("b", 100_000_000)]);
    assert_eq!(rank_by_ascending_metric(&models, &data), vec!["b", "a"]);
}

#[test]
fn test_rank_models_cheapest() {
    let service = make_service(
        table(&[("gpt-4o", 5_000), ("gpt-4o-mini", 100)]),
        Vec::new(),
        Vec::new(),
    );
    let models = names(&["gpt-4o", "gpt-4o-mini"]);
    let result = service.rank_models(
        &models,
        SelectionPreference::Cheapest,
        &RankContext::default(),
    );
    assert_eq!(result, vec!["gpt-4o-mini", "gpt-4o"]);
}

#[test]
fn test_rank_models_fastest() {
    let service = make_service(
        Vec::new(),
        Vec::new(),
        table(&[("gpt-4o", 200), ("sonnet", 120)]),
    );
    let models = names(&["gpt-4o", "sonnet"]);
    let result = service.rank_models(
        &models,
        SelectionPreference::Fastest,
        &RankContext::default(),
    );
    assert_eq!(result, vec!["sonnet", "gpt-4o"]);
}

#[test]
fn test_rank_models_fallback_no_metrics() {
    let service = make_service(Vec::new(), Vec::new(), Vec::new());
    let models = names(&["model-a", "model-b"]);
    let result = service.rank_models(
        &models,
        SelectionPreference::Cheapest,
        &RankContext::default(),
    );
    assert_eq!(result, vec!["model-a", "model-b"]);
}

#[test]
fn test_rank_models_partial_data_appended_last() {
    let service = make_service(table(&[("gpt-4o", 5_000)]), Vec::new(), Vec::new());
    let models = names(&["gpt-4o-mini", "gpt-4o"]);
    let result = service.rank_models(
        &models,
        SelectionPreference::Cheapest,
        &RankContext::default(),
    );
    assert_eq!(result, vec!["gpt-4o", "gpt-4o-mini"]);
}

#[test]
fn test_rank_models_none_preserves_order() {
    let service = make_service(
        table(&[("gpt-4o-mini", 100), ("gpt-4o", 5_000)]),
        Vec::new(),
        Vec::new(),
    );
    let models = names(&["gpt-4o", "gpt-4o-mini"]);
    let result = service.rank_models(
        &models,
        SelectionPreference::Unranked,
        &RankContext::default(),
    );
    // The given order, despite gpt-4o-mini being cheaper.
    assert_eq!(result, vec!["gpt-4o", "gpt-4o-mini"]);
}

fn cache_test_pricing() -> Vec<(String, ModelPricing)> {
    vec![
        (
            "anthropic/sonnet".to_string(),
            ModelPricing {
                input_per_million: 3_000_000,
                output_per_million: 15_000_000,
                cached_input_per_million: Some(300_000), // 90% off input
            },
        ),
        (
            "openai/gpt-4o-mini".to_string(),
            ModelPricing {
                input_per_million: 150_000,
                output_per_million: 600_000,
                cached_input_per_million: Some(75_000),
            },
        ),
    ]
}

#[test]
fn test_cache_aware_keeps_warm_model_despite_cheaper_alternative() {
    // A pinned session with a 32K-token warm prefix on Sonnet: rereading the
    // prefix at $0.30/M beats switching to a lower-sticker-price model that
    // must re-bill all 32K tokens at full input price plus the cache-creation
    // surcharge.
    let mut pricing = cache_test_pricing();
    pricing.push((
        "openai/gpt-4o".to_string(),
        ModelPricing {
            input_per_million: 2_500_000,
            output_per_million: 10_000_000,
            cached_input_per_million: Some(1_250_000),
        },
    ));
    let service = make_service(Vec::new(), pricing, Vec::new());
    let models = names(&["openai/gpt-4o", "anthropic/sonnet"]);
    let ctx = RankContext {
        previous_model: Some("anthropic/sonnet".to_string()),
        prefix_tokens: Some(32_000),
    };
    let result = service.rank_models(&models, SelectionPreference::CacheAware, &ctx);
    assert_eq!(result[0], "anthropic/sonnet");
}

#[test]
fn test_cache_aware_without_pin_ranks_by_projected_cost() {
    let service = make_service(Vec::new(), cache_test_pricing(), Vec::new());
    let models = names(&["anthropic/sonnet", "openai/gpt-4o-mini"]);
    // No previous pin: everyone pays cold-start prices; cheaper model wins.
    let ctx = RankContext {
        previous_model: None,
        prefix_tokens: Some(32_000),
    };
    let result = service.rank_models(&models, SelectionPreference::CacheAware, &ctx);
    assert_eq!(result[0], "openai/gpt-4o-mini");
}

#[test]
fn test_cache_aware_missing_pricing_ranked_last() {
    let service = make_service(Vec::new(), cache_test_pricing(), Vec::new());
    let models = names(&["unknown/model", "anthropic/sonnet"]);
    let ctx = RankContext {
        previous_model: Some("anthropic/sonnet".to_string()),
        prefix_tokens: Some(10_000),
    };
    let result = service.rank_models(&models, SelectionPreference::CacheAware, &ctx);
    assert_eq!(result, vec!["anthropic/sonnet", "unknown/model"]);
}

#[test]
fn test_rank_by_ascending_metric_nan_treated_as_missing() {
    let models = names(&["a", "b", "c", "d"]);
    let mut data = table(&[("b", 500), ("c", 100)]);
    // "a" has an entry without a number, "d" has no entry at all.
    data.push(("a".to_string(), None));
    let result = rank_by_ascending_metric(&models, &data);
    assert_eq!(result, vec!["c", "b", "a", "d"]);
}

#[test]
fn equal_metrics_keep_their_order() {
    let models = names(&["b", "a", "c"]);
    let data = table(&[("a", 7), ("b", 7), ("c", 1)]);
    assert_eq!(
        rank_by_ascending_metric(&models, &data),
        vec!["c", "b", "a"]
    );
}

#[test]
fn costs_are_summed_and_projected() {
    let pricing = cache_test_pricing();
    let cost = summed_cost(&pricing);
    assert_eq!(cost[0].0, "anthropic/sonnet");
    assert!(same(cost[0].1.as_ref().unwrap(), 18_000_000));
    // One warm token of prefix costs a tenth of a cold one without surcharge.
    let base = cache_adjusted_cost(&pricing[0].1, true, 0, 1_000_000);
    let warm = cache_adjusted_cost(&pricing[0].1, true, 1, 1_000_000);
    let cold = cache_adjusted_cost(&pricing[0].1, false, 1, 1_000_000);
    assert!(same(&warm.minus(&base), 300_000_000_000));
    assert!(same(&cold.minus(&base), 3_000_000_000_000));
}

#[test]
fn catalog_and_samples_fill_the_tables() {
    let entry = |id: &str, input: Option<u64>| CatalogModel {
        model_id: id.to_string(),
        pricing: input.map(|n| CatalogPricing {
            input_price_per_million: Some(n),
            output_price_per_million: None,
            cache_read_input_price_per_million: Some(1),
        }),
    };
    let mut service = ModelMetricsService::new();
    service.load_catalog(
        &vec![
            entry("raw", Some(5)),
            entry("plain", Some(9)),
            entry("raw", Some(7)),
            entry("unpriced", None),
        ],
        &vec![("raw".to_string(), "alias".to_string())],
        None,
    );
    assert_eq!(service.pricing.len(), 2);
    assert_eq!(service.pricing[0].0, "alias");
    assert_eq!(service.pricing[0].1.input_per_million, 7);
    assert_eq!(service.pricing[0].1.output_per_million, 0);
    assert_eq!(service.pricing[0].1.cached_input_per_million, Some(1));
    let models = names(&["unpriced", "plain", "alias"]);
    assert_eq!(
        service.rank_models(
            &models,
            SelectionPreference::Cheapest,
            &RankContext::default()
        ),
        vec!["alias", "plain", "unpriced"]
    );
    assert_eq!(service.cache_creation_multiplier, 1_250_000);
    service.load_catalog(&Vec::new(), &Vec::new(), Some(2_000_000));
    assert_eq!(service.cache_creation_multiplier, 2_000_000);
    assert!(service.cost.is_empty());

    let sample = |name: Option<&str>, value: Option<u128>| LatencySample {
        model_name: name.map(|n| n.to_string()),
        value: value.map(Natural::new),
    };
    service.load_latency(&vec![
        sample(Some("a"), Some(30)),
        sample(Some("b"), Some(20)),
        sample(None, Some(1)),
        sample(Some("a"), Some(10)),
        sample(Some("b"), None),
    ]);
    assert_eq!(
        service.rank_models(
            &names(&["b", "a"]),
            SelectionPreference::Fastest,
            &RankContext::default()
        ),
        vec!["a", "b"]
    );
    assert_eq!(
        latency_query_url("http://prom//"),
        "http://prom/api/v1/query"
    );
}

#[test]
fn snapshots_show_the_tables() {
    let price = ModelPricing {
        input_per_million: 3,
        output_per_million: 15,
        cached_input_per_million: None,
    };
    let service = make_service(
        table(&[("a", 1)]),
        vec![("a".to_string(), price)],
        table(&[("b", 2)]),
    );
    assert_eq!(service.cost_snapshot()[0].0, "a");
    assert_eq!(service.pricing_snapshot()[0].1.output_per_million, 15);
    assert_eq!(service.latency_snapshot()[0].0, "b");
}
