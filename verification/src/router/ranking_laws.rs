//! What holds of every ranking of models, and of the costs they are ranked by.

use crate::assoc::{named, named_from};
use crate::natural::Natural;
use crate::router::model_metrics::{
    by_value, catalog_price, insert_by_value, metric, models_of, projected_cost, ranked,
    ranking_ascends, ranking_keeps_every_model, sampled_latency, scores_project, sums_prices, with_metric,
    without_metric, CatalogModel, LatencySample, ModelMetricsService, ModelPricing, RankContext,
    Scored, SelectionPreference,
};
use crate::router::orchestrator::{estimated_switch, read_cost};
use vstd::prelude::*;

verus! {

// ---------------------------------------------------------------------------
// Projected costs
// ---------------------------------------------------------------------------

/// The projected cost grows with the price of the output: 500 tokens of it
/// are assumed, on a warm model and on a cold one.
pub proof fn output_price_counts(
    p: ModelPricing,
    q: ModelPricing,
    warm: bool,
    prefix_tokens: nat,
    multiplier: u64,
)
    requires
        p.input_per_million == q.input_per_million,
        p.cached_input_per_million == q.cached_input_per_million,
    ensures
        projected_cost(q, warm, prefix_tokens, multiplier) - projected_cost(
            p,
            warm,
            prefix_tokens,
            multiplier,
        ) == 500_000_000 * (q.output_per_million - p.output_per_million),
{
}

/// Apart from the output, a cold model costs its input price for 500 new
/// tokens and, with the surcharge for writing the cache, for each token of the
/// prefix.
pub proof fn cold_prefix_is_billed_with_the_surcharge(
    p: ModelPricing,
    prefix_tokens: nat,
    multiplier: u64,
)
    requires
        p.output_per_million == 0,
    ensures
        projected_cost(p, false, prefix_tokens, multiplier) == p.input_per_million * (500_000_000
            + prefix_tokens * multiplier),
        projected_cost(p, false, prefix_tokens + 1, multiplier) - projected_cost(
            p,
            false,
            prefix_tokens,
            multiplier,
        ) == p.input_per_million * multiplier,
{
    let i = p.input_per_million as nat;
    let m = multiplier as nat;
    assert(prefix_tokens * (i * m) == i * (prefix_tokens * m)) by (nonlinear_arith);
    assert((prefix_tokens + 1) * (i * m) == prefix_tokens * (i * m) + i * m) by (nonlinear_arith);
    assert(i * (500_000_000 + prefix_tokens * m) == 500_000_000 * i + i * (prefix_tokens * m))
        by (nonlinear_arith);
}

/// A warm model re-reads each token of the prefix at its cached price, or at
/// its input price where it publishes none; the surcharge does not matter.
pub proof fn warm_prefix_is_read_from_the_cache(
    p: ModelPricing,
    prefix_tokens: nat,
    multiplier: u64,
    other: u64,
)
    ensures
        projected_cost(p, true, prefix_tokens, multiplier) == projected_cost(
            p,
            true,
            prefix_tokens,
            other,
        ),
        projected_cost(p, true, prefix_tokens + 1, multiplier) - projected_cost(
            p,
            true,
            prefix_tokens,
            multiplier,
        ) == 1_000_000 * (if p.cached_input_per_million is Some {
            p.cached_input_per_million->0
        } else {
            p.input_per_million
        }),
        projected_cost(p, true, 0, multiplier) == projected_cost(p, false, 0, multiplier),
{
    let r = if p.cached_input_per_million is Some {
        p.cached_input_per_million->0 as nat
    } else {
        p.input_per_million as nat
    };
    let w = r * 1_000_000nat;
    let c = p.input_per_million as nat * multiplier as nat;
    assert((prefix_tokens + 1) * w == prefix_tokens * w + w) by (nonlinear_arith);
    assert(0 * w == 0) by (nonlinear_arith);
    assert(0 * c == 0) by (nonlinear_arith);
}

// ---------------------------------------------------------------------------
// Order
// ---------------------------------------------------------------------------

proof fn lemma_with_metric(models: Seq<Seq<char>>, data: Seq<(String, Option<Natural>)>, i: int)
    requires
        0 <= i < with_metric(models, data).len(),
    ensures
        metric(data, with_metric(models, data)[i].model) == Some(
            with_metric(models, data)[i].value,
        ),
    decreases models.len(),
{
    if models.len() > 0 {
        let rest = with_metric(models.drop_last(), data);
        if i < rest.len() {
            lemma_with_metric(models.drop_last(), data, i);
        }
    }
}

proof fn lemma_without_metric(models: Seq<Seq<char>>, data: Seq<(String, Option<Natural>)>, i: int)
    requires
        0 <= i < without_metric(models, data).len(),
    ensures
        metric(data, without_metric(models, data)[i]) is None,
    decreases models.len(),
{
    if models.len() > 0 {
        let rest = without_metric(models.drop_last(), data);
        if i < rest.len() {
            lemma_without_metric(models.drop_last(), data, i);
        }
    }
}

proof fn lemma_insert_members(s: Seq<Scored>, x: Scored, i: int)
    requires
        0 <= i < insert_by_value(s, x).len(),
    ensures
        insert_by_value(s, x)[i] == x || s.contains(insert_by_value(s, x)[i]),
    decreases s.len(),
{
    if s.len() > 0 && x.value < s.last().value {
        let rest = insert_by_value(s.drop_last(), x);
        if i < rest.len() {
            lemma_insert_members(s.drop_last(), x, i);
            if rest[i] != x {
                let k = choose|k: int| 0 <= k < s.drop_last().len() && s.drop_last()[k] == rest[i];
                assert(s[k] == rest[i]);
            }
        } else {
            assert(s[s.len() - 1] == s.last());
        }
    } else if s.len() > 0 {
        if i < s.len() {
            assert(s[i] == s.push(x)[i]);
        }
    }
}

proof fn lemma_sorted_members(s: Seq<Scored>, i: int)
    requires
        0 <= i < by_value(s).len(),
    ensures
        s.contains(by_value(s)[i]),
    decreases s.len(),
{
    if s.len() > 0 {
        let t = by_value(s.drop_last());
        lemma_insert_members(t, s.last(), i);
        let y = by_value(s)[i];
        assert(s[s.len() - 1] == s.last());
        if y != s.last() {
            let k = choose|k: int| 0 <= k < t.len() && t[k] == y;
            lemma_sorted_members(s.drop_last(), k);
            let l = choose|l: int| 0 <= l < s.drop_last().len() && s.drop_last()[l] == y;
            assert(s[l] == y);
        }
    }
}

/// In a ranking, a model with a value stands before all that have a greater
/// one or none.
pub proof fn lower_value_comes_first(
    models: Seq<Seq<char>>,
    data: Seq<(String, Option<Natural>)>,
    i: int,
    j: int,
)
    requires
        0 <= i < j < ranked(models, data).len(),
    ensures
        metric(data, ranked(models, data)[i]) is None ==> metric(
            data,
            ranked(models, data)[j],
        ) is None,
        metric(data, ranked(models, data)[i]) is Some && metric(data, ranked(models, data)[j]) is Some
            ==> metric(data, ranked(models, data)[i])->0 <= metric(
            data,
            ranked(models, data)[j],
        )->0,
{
    let w = with_metric(models, data);
    let sorted = by_value(w);
    let n = sorted.len() as int;
    let r = ranked(models, data);
    ranking_ascends(models, data);
    if i < n {
        lemma_sorted_members(w, i);
        let a = choose|a: int| 0 <= a < w.len() && w[a] == sorted[i];
        lemma_with_metric(models, data, a);
        assert(r[i] == sorted[i].model);
    } else {
        lemma_without_metric(models, data, i - n);
    }
    if j < n {
        lemma_sorted_members(w, j);
        let b = choose|b: int| 0 <= b < w.len() && w[b] == sorted[j];
        lemma_with_metric(models, data, b);
        assert(r[j] == sorted[j].model);
    } else {
        lemma_without_metric(models, data, j - n);
    }
}

proof fn lemma_all_equal(s: Seq<Scored>)
    requires
        forall|i: int, j: int|
            0 <= i < s.len() && 0 <= j < s.len() ==> (#[trigger] s[i]).value == (
            #[trigger] s[j]).value,
    ensures
        by_value(s) == s,
    decreases s.len(),
{
    if s.len() > 0 {
        let t = s.drop_last();
        assert forall|i: int, j: int| 0 <= i < t.len() && 0 <= j < t.len() implies (
        #[trigger] t[i]).value == (#[trigger] t[j]).value by {
            assert(t[i] == s[i]);
            assert(t[j] == s[j]);
        }
        lemma_all_equal(t);
        if t.len() > 0 {
            assert(t.last() == s[t.len() - 1]);
            assert(s.last() == s[s.len() - 1]);
        }
        assert(t.push(s.last()) =~= s);
        assert(seq![s.last()] =~= t.push(s.last()) || t.len() > 0);
    }
}

proof fn lemma_all_with(models: Seq<Seq<char>>, data: Seq<(String, Option<Natural>)>, value: nat)
    requires
        forall|i: int| 0 <= i < models.len() ==> metric(data, #[trigger] models[i]) == Some(value),
    ensures
        models_of(with_metric(models, data)) == models,
        without_metric(models, data).len() == 0,
        forall|i: int|
            0 <= i < with_metric(models, data).len() ==> (#[trigger] with_metric(
                models,
                data,
            )[i]).value == value,
    decreases models.len(),
{
    if models.len() > 0 {
        let t = models.drop_last();
        assert forall|i: int| 0 <= i < t.len() implies metric(data, #[trigger] t[i]) == Some(
            value,
        ) by {
            assert(t[i] == models[i]);
        }
        lemma_all_with(t, data, value);
        assert(models.last() == models[models.len() - 1]);
        let x = Scored { model: models.last(), value };
        assert(models_of(with_metric(t, data).push(x)) =~= models_of(with_metric(t, data)).push(
            models.last(),
        ));
        assert(t.push(models.last()) =~= models);
    } else {
        assert(models_of(with_metric(models, data)) =~= models);
    }
}

/// Models of equal value keep the order they were given in.
pub proof fn ties_keep_their_order(
    models: Seq<Seq<char>>,
    data: Seq<(String, Option<Natural>)>,
    value: nat,
)
    requires
        forall|i: int| 0 <= i < models.len() ==> metric(data, #[trigger] models[i]) == Some(value),
    ensures
        ranked(models, data) == models,
{
    lemma_all_with(models, data, value);
    let w = with_metric(models, data);
    assert forall|i: int, j: int| 0 <= i < w.len() && 0 <= j < w.len() implies (
    #[trigger] w[i]).value == (#[trigger] w[j]).value by {}
    lemma_all_equal(w);
    assert(ranked(models, data) =~= models);
}

proof fn lemma_all_without(models: Seq<Seq<char>>, data: Seq<(String, Option<Natural>)>)
    requires
        forall|i: int| 0 <= i < models.len() ==> metric(data, #[trigger] models[i]) is None,
    ensures
        with_metric(models, data).len() == 0,
        without_metric(models, data) == models,
    decreases models.len(),
{
    if models.len() > 0 {
        let t = models.drop_last();
        assert forall|i: int| 0 <= i < t.len() implies metric(data, #[trigger] t[i]) is None by {
            assert(t[i] == models[i]);
        }
        lemma_all_without(t, data);
        assert(models.last() == models[models.len() - 1]);
        assert(t.push(models.last()) =~= models);
    } else {
        assert(without_metric(models, data) =~= models);
    }
}

/// Models of which nothing is known keep the order they were given in.
pub proof fn unknown_models_keep_their_order(
    models: Seq<Seq<char>>,
    data: Seq<(String, Option<Natural>)>,
)
    requires
        forall|i: int| 0 <= i < models.len() ==> metric(data, #[trigger] models[i]) is None,
    ensures
        ranked(models, data) == models,
{
    lemma_all_without(models, data);
    assert(ranked(models, data) =~= models);
}

// ---------------------------------------------------------------------------
// Preferences
// ---------------------------------------------------------------------------

/// Ranking by the least cost goes by the cost of a model, by the least latency
/// by its latency, and no preference keeps the given order.
pub proof fn preference_decides_the_order(
    m: ModelMetricsService,
    models: Seq<Seq<char>>,
    prefer: SelectionPreference,
    ctx: RankContext,
    r: Seq<Seq<char>>,
    i: int,
    j: int,
)
    requires
        m.ranks(models, prefer, ctx, r),
        0 <= i < j < r.len(),
    ensures
        r.to_multiset() == models.to_multiset(),
        prefer == SelectionPreference::Cheapest && metric(m.cost@, r[i]) is Some && metric(
            m.cost@,
            r[j],
        ) is Some ==> metric(m.cost@, r[i])->0 <= metric(m.cost@, r[j])->0,
        prefer == SelectionPreference::Fastest && metric(m.latency@, r[i]) is Some && metric(
            m.latency@,
            r[j],
        ) is Some ==> metric(m.latency@, r[i])->0 <= metric(m.latency@, r[j])->0,
        prefer == SelectionPreference::Cheapest && metric(m.cost@, r[i]) is None ==> metric(
            m.cost@,
            r[j],
        ) is None,
        prefer == SelectionPreference::Fastest && metric(m.latency@, r[i]) is None ==> metric(
            m.latency@,
            r[j],
        ) is None,
        prefer == SelectionPreference::Unranked ==> r == models,
{
    match prefer {
        SelectionPreference::Cheapest => {
            ranking_keeps_every_model(models, m.cost@);
            lower_value_comes_first(models, m.cost@, i, j);
        },
        SelectionPreference::Fastest => {
            ranking_keeps_every_model(models, m.latency@);
            lower_value_comes_first(models, m.latency@, i, j);
        },
        SelectionPreference::CacheAware => {
            let scores = choose|scores: Seq<(String, Option<Natural>)>|
                #[trigger] scores_project(scores, models, m, ctx) && r == ranked(models, scores);
            ranking_keeps_every_model(models, scores);
        },
        SelectionPreference::Unranked => {},
    }
}

proof fn lemma_ranked_member(models: Seq<Seq<char>>, r: Seq<Seq<char>>, i: int)
    requires
        r.to_multiset() == models.to_multiset(),
        0 <= i < r.len(),
    ensures
        exists|k: int| 0 <= k < models.len() && models[k] == r[i],
{
    broadcast use vstd::seq_lib::group_to_multiset_ensures;

    assert(r.contains(r[i]));
    assert(r.to_multiset().count(r[i]) > 0);
    assert(models.contains(r[i]));
}

/// In a cache-aware ranking of models that all have a price, the cost of the
/// next turn ascends: that of the warm model is the one from its cache, and
/// all others re-read the prefix.
pub proof fn cache_aware_ranking_ascends(
    m: ModelMetricsService,
    models: Seq<Seq<char>>,
    ctx: RankContext,
    r: Seq<Seq<char>>,
    i: int,
    j: int,
)
    requires
        m.ranks(models, SelectionPreference::CacheAware, ctx, r),
        0 <= i < j < r.len(),
        named(m.pricing@, r[j]) is Some,
    ensures
        named(m.pricing@, r[i]) is Some,
        ({
            let prefix = if ctx.prefix_tokens is Some { ctx.prefix_tokens->0 as nat } else { 0 };
            let i_warm = ctx.previous_model is Some && ctx.previous_model->0@ == r[i];
            let j_warm = ctx.previous_model is Some && ctx.previous_model->0@ == r[j];
            projected_cost(
                named(m.pricing@, r[i])->0,
                i_warm,
                prefix,
                m.cache_creation_multiplier,
            ) <= projected_cost(
                named(m.pricing@, r[j])->0,
                j_warm,
                prefix,
                m.cache_creation_multiplier,
            )
        }),
{
    let scores = choose|scores: Seq<(String, Option<Natural>)>|
        #[trigger] scores_project(scores, models, m, ctx) && r == ranked(models, scores);
    ranking_keeps_every_model(models, scores);
    lower_value_comes_first(models, scores, i, j);
    lemma_ranked_member(models, r, i);
    lemma_ranked_member(models, r, j);
    let a = choose|k: int| 0 <= k < models.len() && models[k] == r[i];
    let b = choose|k: int| 0 <= k < models.len() && models[k] == r[j];
    assert(metric(scores, models[a]) == metric(scores, r[i]));
    assert(metric(scores, models[b]) == metric(scores, r[j]));
}

/// Of two cold models with the same input prices, the one with the cheaper
/// output ranks first.
pub proof fn cheaper_output_ranks_first(
    m: ModelMetricsService,
    models: Seq<Seq<char>>,
    ctx: RankContext,
    r: Seq<Seq<char>>,
    i: int,
    j: int,
)
    requires
        m.ranks(models, SelectionPreference::CacheAware, ctx, r),
        0 <= i < r.len(),
        0 <= j < r.len(),
        ctx.previous_model is Some ==> ctx.previous_model->0@ != r[i] && ctx.previous_model->0@
            != r[j],
        named(m.pricing@, r[i]) is Some,
        named(m.pricing@, r[j]) is Some,
        named(m.pricing@, r[i])->0.input_per_million == named(
            m.pricing@,
            r[j],
        )->0.input_per_million,
        named(m.pricing@, r[i])->0.cached_input_per_million == named(
            m.pricing@,
            r[j],
        )->0.cached_input_per_million,
        named(m.pricing@, r[i])->0.output_per_million < named(
            m.pricing@,
            r[j],
        )->0.output_per_million,
    ensures
        i < j,
{
    if j < i {
        let prefix = if ctx.prefix_tokens is Some { ctx.prefix_tokens->0 as nat } else { 0 };
        cache_aware_ranking_ascends(m, models, ctx, r, j, i);
        output_price_counts(
            named(m.pricing@, r[i])->0,
            named(m.pricing@, r[j])->0,
            false,
            prefix,
            m.cache_creation_multiplier,
        );
    }
}

// ---------------------------------------------------------------------------
// Sources
// ---------------------------------------------------------------------------

proof fn lemma_summed(
    cost: Seq<(String, Option<Natural>)>,
    pricing: Seq<(String, ModelPricing)>,
    model: Seq<char>,
    i: int,
)
    requires
        sums_prices(cost, pricing),
        0 <= i <= pricing.len(),
    ensures
        match named_from(pricing, model, i) {
            Some(p) => match named_from(cost, model, i) {
                Some(Some(n)) => n@ == p.input_per_million + p.output_per_million,
                _ => false,
            },
            None => named_from(cost, model, i) is None,
        },
    decreases pricing.len() - i,
{
    if i < pricing.len() {
        assert(cost[i].0@ == pricing[i].0@);
        lemma_summed(cost, pricing, model, i + 1);
    }
}

/// What a model costs is its input price and its output price together, and
/// a model without a price has no cost.
pub proof fn cost_is_input_and_output(
    cost: Seq<(String, Option<Natural>)>,
    pricing: Seq<(String, ModelPricing)>,
    model: Seq<char>,
)
    requires
        sums_prices(cost, pricing),
    ensures
        metric(cost, model) is Some == named(pricing, model) is Some,
        named(pricing, model) is Some ==> metric(cost, model)->0 == named(
            pricing,
            model,
        )->0.input_per_million + named(pricing, model)->0.output_per_million,
{
    lemma_summed(cost, pricing, model, 0);
}

/// A catalog that names a model last gives it its prices, where one that is
/// missing is 0; an entry without prices, or of another name, changes nothing.
pub proof fn last_catalog_entry_counts(
    list: Seq<CatalogModel>,
    entry: CatalogModel,
    aliases: Seq<(String, String)>,
    model: Seq<char>,
)
    ensures
        ({
            let name = if named(aliases, entry.model_id@) is Some {
                named(aliases, entry.model_id@)->0@
            } else {
                entry.model_id@
            };
            let price = catalog_price(list.push(entry), aliases, model);
            if entry.pricing is Some && name == model {
                let p = entry.pricing->0;
                &&& price is Some
                &&& p.input_price_per_million is Some ==> price->0.input_per_million
                    == p.input_price_per_million->0
                &&& p.input_price_per_million is None ==> price->0.input_per_million == 0
                &&& p.output_price_per_million is Some ==> price->0.output_per_million
                    == p.output_price_per_million->0
                &&& p.output_price_per_million is None ==> price->0.output_per_million == 0
                &&& price->0.cached_input_per_million == p.cache_read_input_price_per_million
            } else {
                price == catalog_price(list, aliases, model)
            }
        }),
        catalog_price(Seq::empty(), aliases, model) is None,
{
    assert(list.push(entry).drop_last() =~= list);
}

/// The last sample with a number is the latency of the model it names, and of
/// no other.
pub proof fn last_sample_counts(samples: Seq<LatencySample>, s: LatencySample, model: Seq<char>)
    ensures
        ({
            let now = sampled_latency(samples.push(s), model);
            if s.model_name is Some && s.value is Some && s.model_name->0@ == model {
                now == Some(s.value->0@)
            } else {
                now == sampled_latency(samples, model)
            }
        }),
        sampled_latency(Seq::empty(), model) is None,
{
    assert(samples.push(s).drop_last() =~= samples);
}

// ---------------------------------------------------------------------------
// Reading and switching
// ---------------------------------------------------------------------------

/// Each further token costs the published cached price, or the given share of
/// the input price where none is published; no tokens cost nothing.
pub proof fn reading_costs_the_cached_price(
    prices: Seq<(String, ModelPricing)>,
    tokens: nat,
    model: Seq<char>,
    discount: u64,
)
    ensures
        named(prices, model) is None ==> read_cost(prices, tokens, model, discount) is None,
        named(prices, model) is Some ==> {
            let p = named(prices, model)->0;
            let one = if p.cached_input_per_million is Some {
                p.cached_input_per_million->0 * 1_000_000
            } else {
                p.input_per_million * discount
            };
            &&& read_cost(prices, 0, model, discount) == Some(0nat)
            &&& read_cost(prices, tokens, model, discount) is Some
            &&& read_cost(prices, tokens + 1, model, discount) == Some(
                (read_cost(prices, tokens, model, discount)->0 + one) as nat,
            )
        },
{
    if named(prices, model) is Some {
        let r = named(prices, model)->0.cached_rate(discount);
        assert((tokens + 1) * r == tokens * r + r) by (nonlinear_arith);
        assert(0 * r == 0) by (nonlinear_arith);
    }
}

/// Moving a token of the context from the cold to the warm part of the
/// candidate saves the difference of its two prices and leaves the anchor's
/// side alone; a cold context costs its full input price.
pub proof fn warm_tokens_save_the_price_difference(
    prices: Seq<(String, ModelPricing)>,
    context: nat,
    warm: nat,
    anchor: Seq<char>,
    candidate: Seq<char>,
    discount: u64,
)
    requires
        warm < context,
        named(prices, anchor) is Some,
        named(prices, candidate) is Some,
    ensures
        ({
            let c = named(prices, candidate)->0;
            let full = c.input_per_million * 1_000_000;
            let one = if c.cached_input_per_million is Some {
                c.cached_input_per_million->0 * 1_000_000
            } else {
                c.input_per_million * discount
            };
            let none = estimated_switch(prices, context, 0, anchor, candidate, discount);
            let some = estimated_switch(prices, context, warm, anchor, candidate, discount);
            let more = estimated_switch(prices, context, warm + 1, anchor, candidate, discount);
            &&& none is Some && some is Some && more is Some
            &&& none->0.candidate == context * full
            &&& more->0.candidate == some->0.candidate - full + one
            &&& more->0.anchor == some->0.anchor
            &&& read_cost(prices, context, anchor, discount) == Some(some->0.anchor)
        }),
{
    let c = named(prices, candidate)->0;
    let full = c.uncached_rate();
    let one = c.cached_rate(discount);
    let left = (context - warm) as nat;
    assert((warm + 1) * one == warm * one + one) by (nonlinear_arith);
    assert(left * full == (left - 1) * full + full) by (nonlinear_arith);
    assert(0 * one == 0) by (nonlinear_arith);
}

/// A switch that cannot be priced on one side is not priced at all.
pub proof fn missing_prices_leave_a_switch_unpriced(
    prices: Seq<(String, ModelPricing)>,
    context: nat,
    warm: nat,
    anchor: Seq<char>,
    candidate: Seq<char>,
    discount: u64,
)
    requires
        named(prices, anchor) is None || named(prices, candidate) is None,
    ensures
        estimated_switch(prices, context, warm, anchor, candidate, discount) is None,
{
}

} // verus!
