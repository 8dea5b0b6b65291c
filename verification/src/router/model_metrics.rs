//! Pricing and ranking of models.
//!
//! Prices are whole micro-dollars (10^-6 USD) per million tokens. Costs are
//! exact, counted in 10^-18 USD: the price of one token in picodollars, times
//! the millionths in which discounts and multipliers are given.

use crate::assoc::{find_named, named, put_named};
use crate::natural::Natural;
use crate::text::{
    chars_of, clone_texts, concat2, lemma_texts_push, same_text, text_of, texts,
};
use vstd::prelude::*;

verus! {

/// One, in the millionths that discounts and multipliers are given in.
pub const MILLION: u64 = 1_000_000;

/// The standard cache-write surcharge, in millionths of the input rate.
/// Catalog sources generally don't publish a write rate, so this multiplier is
/// applied to the input rate.
pub const DEFAULT_CACHE_CREATION_MULTIPLIER: u64 = 1_250_000;

/// Assumed per-turn fresh input/output tokens when projecting cache-adjusted cost.
/// The dominant term is the repeated prefix, so precision here barely matters.
pub const ASSUMED_NEW_INPUT_TOKENS: u64 = 500;

pub const ASSUMED_OUTPUT_TOKENS: u64 = 500;

/// Per-model pricing, in micro-dollars per million tokens.
#[derive(Debug, Clone, Copy, PartialEq, Eq, Structural)]
pub struct ModelPricing {
    pub input_per_million: u64,
    pub output_per_million: u64,
    /// Cached-input (cache read) rate. `None` when the catalog doesn't publish one.
    pub cached_input_per_million: Option<u64>,
}

/// Request-scoped context for ranking decisions.
#[derive(Debug, Clone, Default)]
pub struct RankContext {
    /// Model whose provider prompt cache may still be warm for this session
    /// (the current or recently-expired pin). Cache-aware ranking prices this model
    /// at its cached-input rate for the repeated prefix; all others pay full input
    /// price plus the cache-creation surcharge — the switch penalty.
    pub previous_model: Option<String>,
    /// Estimated token length of the repeated prompt prefix.
    pub prefix_tokens: Option<u64>,
}

/// How the models of a route are ranked.
#[derive(Debug, Clone, Copy, PartialEq, Eq, Structural)]
pub enum SelectionPreference {
    Cheapest,
    Fastest,
    CacheAware,
    /// The given order.
    Unranked,
}

// ---------------------------------------------------------------------------
// Rates
// ---------------------------------------------------------------------------

impl ModelPricing {
    /// The full input price of a token, in 10^-18 USD.
    pub open spec fn uncached_rate(self) -> nat {
        self.input_per_million as nat * MILLION as nat
    }

    /// The price of a token read from the cache, in 10^-18 USD: the published
    /// rate, or the input rate times the discount in millionths.
    pub open spec fn cached_rate(self, discount: u64) -> nat {
        match self.cached_input_per_million {
            Some(c) => c as nat * MILLION as nat,
            None => self.input_per_million as nat * discount as nat,
        }
    }

    /// The full input price of a token, in 10^-18 USD.
    pub fn uncached_input_rate(&self) -> (r: Natural)
        ensures
            r@ == self.uncached_rate(),
    {
        Natural::new(self.input_per_million as u128).times(&Natural::new(MILLION as u128))
    }

    /// The price of a token read from the cache, in 10^-18 USD.
    pub fn cached_input_rate(&self, discount: u64) -> (r: Natural)
        ensures
            r@ == self.cached_rate(discount),
    {
        match self.cached_input_per_million {
            Some(c) => Natural::new(c as u128).times(&Natural::new(MILLION as u128)),
            None => Natural::new(self.input_per_million as u128).times(
                &Natural::new(discount as u128),
            ),
        }
    }
}

// ---------------------------------------------------------------------------
// Ranking
// ---------------------------------------------------------------------------

/// What a table says of a model: its value, if it has one. A value that is
/// not a number is none.
pub open spec fn metric(data: Seq<(String, Option<Natural>)>, model: Seq<char>) -> Option<nat> {
    match named(data, model) {
        Some(Some(n)) => Some(n@),
        _ => None,
    }
}

/// A model with its value.
pub struct Scored {
    pub model: Seq<char>,
    pub value: nat,
}

/// The models that have a value, with it, in order.
pub open spec fn with_metric(
    models: Seq<Seq<char>>,
    data: Seq<(String, Option<Natural>)>,
) -> Seq<Scored>
    decreases models.len(),
{
    if models.len() == 0 {
        Seq::empty()
    } else {
        let rest = with_metric(models.drop_last(), data);
        match metric(data, models.last()) {
            Some(value) => rest.push(Scored { model: models.last(), value }),
            None => rest,
        }
    }
}

/// The models that have no value, in order.
pub open spec fn without_metric(
    models: Seq<Seq<char>>,
    data: Seq<(String, Option<Natural>)>,
) -> Seq<Seq<char>>
    decreases models.len(),
{
    if models.len() == 0 {
        Seq::empty()
    } else {
        let rest = without_metric(models.drop_last(), data);
        if metric(data, models.last()) is None { rest.push(models.last()) } else { rest }
    }
}

/// `x` put into a sequence sorted by value, behind what is not greater.
pub open spec fn insert_by_value(s: Seq<Scored>, x: Scored) -> Seq<Scored>
    decreases s.len(),
{
    if s.len() == 0 {
        seq![x]
    } else if x.value < s.last().value {
        insert_by_value(s.drop_last(), x).push(s.last())
    } else {
        s.push(x)
    }
}

/// The stable sort of `s` by value, ascending.
pub open spec fn by_value(s: Seq<Scored>) -> Seq<Scored>
    decreases s.len(),
{
    if s.len() == 0 {
        s
    } else {
        insert_by_value(by_value(s.drop_last()), s.last())
    }
}

/// The models of a sequence.
pub open spec fn models_of(s: Seq<Scored>) -> Seq<Seq<char>> {
    s.map_values(|x: Scored| x.model)
}

/// The models in ascending order of their values, those without a value last
/// and in their given order.
pub open spec fn ranked(
    models: Seq<Seq<char>>,
    data: Seq<(String, Option<Natural>)>,
) -> Seq<Seq<char>> {
    models_of(by_value(with_metric(models, data))) + without_metric(models, data)
}

/// Whether the values ascend.
pub open spec fn ascending(s: Seq<Scored>) -> bool {
    forall|i: int, j: int|
        0 <= i <= j < s.len() ==> (#[trigger] s[i]).value <= (#[trigger] s[j]).value
}

proof fn lemma_insert_by_value(s: Seq<Scored>, x: Scored)
    requires
        ascending(s),
    ensures
        ascending(insert_by_value(s, x)),
        insert_by_value(s, x).to_multiset() == s.to_multiset().insert(x),
        forall|i: int|
            0 <= i < insert_by_value(s, x).len() ==> (#[trigger] insert_by_value(s, x)[i]).value
                <= x.value || exists|j: int| 0 <= j < s.len() && insert_by_value(s, x)[i] == s[j],
    decreases s.len(),
{
    broadcast use vstd::seq_lib::group_to_multiset_ensures;

    if s.len() > 0 && x.value < s.last().value {
        let rest = s.drop_last();
        assert forall|i: int, j: int| 0 <= i <= j < rest.len() implies (#[trigger] rest[i]).value
            <= (#[trigger] rest[j]).value by {
            assert(rest[i] == s[i]);
            assert(rest[j] == s[j]);
        }
        lemma_insert_by_value(rest, x);
        let t = insert_by_value(rest, x);
        let r = t.push(s.last());
        assert forall|i: int| 0 <= i < t.len() implies (#[trigger] t[i]).value
            <= s.last().value by {
            if t[i].value > x.value {
                let j = choose|j: int| 0 <= j < rest.len() && t[i] == rest[j];
                assert(rest[j] == s[j]);
            }
        }
        assert forall|i: int, j: int| 0 <= i <= j < r.len() implies (#[trigger] r[i]).value <= (
        #[trigger] r[j]).value by {
            if j < t.len() {
                assert(r[i] == t[i]);
                assert(r[j] == t[j]);
            } else if i < t.len() {
                assert(r[i] == t[i]);
            }
        }
        assert(rest.push(s.last()) =~= s);
        assert(r.to_multiset() =~= s.to_multiset().insert(x));
        assert forall|i: int| 0 <= i < r.len() implies (#[trigger] r[i]).value <= x.value
            || exists|j: int| 0 <= j < s.len() && r[i] == s[j] by {
            if i < t.len() {
                assert(r[i] == t[i]);
                if t[i].value > x.value {
                    let j = choose|j: int| 0 <= j < rest.len() && t[i] == rest[j];
                    assert(rest[j] == s[j]);
                }
            } else {
                assert(r[i] == s[s.len() - 1]);
            }
        }
    } else if s.len() > 0 {
        let r = s.push(x);
        assert forall|i: int, j: int| 0 <= i <= j < r.len() implies (#[trigger] r[i]).value <= (
        #[trigger] r[j]).value by {
            if j < s.len() {
                assert(r[i] == s[i]);
                assert(r[j] == s[j]);
            } else if i < s.len() {
                assert(r[i] == s[i]);
                assert(s[i].value <= s[s.len() - 1].value);
            }
        }
        assert forall|i: int| 0 <= i < r.len() implies (#[trigger] r[i]).value <= x.value
            || exists|j: int| 0 <= j < s.len() && r[i] == s[j] by {
            if i < s.len() {
                assert(r[i] == s[i]);
            }
        }
    } else {
        assert(seq![x] =~= s.push(x));
    }
}

proof fn lemma_by_value(s: Seq<Scored>)
    ensures
        ascending(by_value(s)),
        by_value(s).to_multiset() == s.to_multiset(),
    decreases s.len(),
{
    broadcast use vstd::seq_lib::group_to_multiset_ensures;

    if s.len() > 0 {
        lemma_by_value(s.drop_last());
        lemma_insert_by_value(by_value(s.drop_last()), s.last());
        assert(s.drop_last().push(s.last()) =~= s);
    }
}

proof fn lemma_models_multiset(a: Seq<Scored>, b: Seq<Scored>)
    requires
        a.to_multiset() == b.to_multiset(),
    ensures
        models_of(a).to_multiset() == models_of(b).to_multiset(),
    decreases a.len(),
{
    broadcast use vstd::seq_lib::group_to_multiset_ensures;

    if a.len() == 0 {
        assert(b.to_multiset().len() == 0);
        assert(b.len() == 0);
        assert(models_of(a) =~= models_of(b));
    } else {
        let x = a.last();
        assert(a.drop_last().push(x) =~= a);
        assert(a.to_multiset().count(x) > 0);
        assert(b.contains(x));
        let i = choose|i: int| 0 <= i < b.len() && b[i] == x;
        let rest = b.remove(i);
        assert(rest.to_multiset() =~= b.to_multiset().remove(x));
        assert(a.drop_last().to_multiset() =~= a.to_multiset().remove(x));
        lemma_models_multiset(a.drop_last(), rest);
        assert(models_of(a) =~= models_of(a.drop_last()).push(x.model));
        assert(models_of(rest) =~= models_of(b).remove(i));
        assert(models_of(b)[i] == x.model);
        assert(models_of(b).to_multiset() =~= models_of(rest).to_multiset().insert(x.model));
    }
}

proof fn lemma_split(models: Seq<Seq<char>>, data: Seq<(String, Option<Natural>)>)
    ensures
        models_of(with_metric(models, data)).to_multiset().add(
            without_metric(models, data).to_multiset(),
        ) == models.to_multiset(),
    decreases models.len(),
{
    broadcast use vstd::seq_lib::group_to_multiset_ensures;

    if models.len() == 0 {
        assert(models_of(with_metric(models, data)) =~= models);
        assert(models.to_multiset().add(models.to_multiset()) =~= models.to_multiset());
    } else {
        let before = models.drop_last();
        lemma_split(before, data);
        assert(before.push(models.last()) =~= models);
        let w = with_metric(before, data);
        match metric(data, models.last()) {
            Some(value) => {
                let x = Scored { model: models.last(), value };
                assert(models_of(w.push(x)) =~= models_of(w).push(models.last()));
            },
            None => {},
        }
        assert(models_of(with_metric(models, data)).to_multiset().add(
            without_metric(models, data).to_multiset(),
        ) =~= models.to_multiset());
    }
}

/// Ranking keeps every model: it only changes the order.
pub proof fn ranking_keeps_every_model(
    models: Seq<Seq<char>>,
    data: Seq<(String, Option<Natural>)>,
)
    ensures
        ranked(models, data).to_multiset() == models.to_multiset(),
{
    broadcast use vstd::seq_lib::group_to_multiset_ensures;

    let w = with_metric(models, data);
    lemma_by_value(w);
    lemma_models_multiset(by_value(w), w);
    lemma_split(models, data);
    vstd::seq_lib::lemma_multiset_commutative(models_of(by_value(w)), without_metric(models, data));
}

/// The ranked models that have a value come in ascending order of it.
pub proof fn ranking_ascends(models: Seq<Seq<char>>, data: Seq<(String, Option<Natural>)>)
    ensures
        ascending(by_value(with_metric(models, data))),
{
    lemma_by_value(with_metric(models, data));
}

/// A model with its value, as ranking holds it.
struct ScoredModel {
    model: String,
    value: Natural,
}

spec fn scored(v: Seq<ScoredModel>) -> Seq<Scored> {
    Seq::new(v.len(), |i: int| Scored { model: v[i].model@, value: v[i].value@ })
}

fn insert_scored(v: &mut Vec<ScoredModel>, x: ScoredModel)
    ensures
        scored(final(v)@) == insert_by_value(
            scored(old(v)@),
            (Scored { model: x.model@, value: x.value@ }),
        ),
{
    let ghost all = scored(v@);
    let ghost xf = Scored { model: x.model@, value: x.value@ };
    let mut k: usize = v.len();
    assert(all.take(k as int) =~= all);
    assert(insert_by_value(all, xf) =~= insert_by_value(all.take(k as int), xf) + all.skip(k as int));
    while k > 0 && !x.value.at_least(&v[k - 1].value)
        invariant
            k <= v@.len(),
            all == scored(v@),
            xf == (Scored { model: x.model@, value: x.value@ }),
            insert_by_value(all, xf) == insert_by_value(all.take(k as int), xf) + all.skip(k as int),
        decreases k,
    {
        proof {
            let s = all.take(k as int);
            assert(s.last() == all[k - 1]);
            assert(s.drop_last() =~= all.take(k - 1));
            assert(insert_by_value(s.drop_last(), xf).push(s.last()) + all.skip(k as int)
                =~= insert_by_value(s.drop_last(), xf) + all.skip(k - 1));
        }
        k -= 1;
    }
    proof {
        let s = all.take(k as int);
        if k > 0 {
            assert(s.last() == all[k - 1]);
        } else {
            assert(s =~= Seq::empty());
        }
        assert(insert_by_value(s, xf) =~= s.push(xf));
        assert(scored(v@.insert(k as int, x)) =~= s.push(xf) + all.skip(k as int));
    }
    v.insert(k, x);
}

/// Ranks models in ascending order of their values; models without a value
/// are appended at the end in their given order.
pub fn rank_by_ascending_metric(
    models: &Vec<String>,
    data: &Vec<(String, Option<Natural>)>,
) -> (r: Vec<String>)
    ensures
        texts(r@) == ranked(texts(models@), data@),
{
    let ghost all = texts(models@);
    let mut sorted: Vec<ScoredModel> = Vec::new();
    let mut rest: Vec<String> = Vec::new();
    let mut i: usize = 0;
    assert(scored(sorted@) =~= Seq::empty());
    assert(texts(rest@) =~= Seq::empty());
    while i < models.len()
        invariant
            i <= models@.len(),
            all == texts(models@),
            scored(sorted@) == by_value(with_metric(all.take(i as int), data@)),
            texts(rest@) == without_metric(all.take(i as int), data@),
        decreases models.len() - i,
    {
        proof {
            let next = all.take(i + 1);
            assert(next.drop_last() =~= all.take(i as int));
            assert(next.last() == models@[i as int]@);
        }
        let name: &str = models[i].as_str();
        let ghost w = with_metric(all.take(i as int), data@);
        match find_named(data, name) {
            Some(Some(n)) => {
                let x: ScoredModel = ScoredModel { model: name.to_owned(), value: n.clone() };
                proof {
                    let xf = Scored { model: x.model@, value: x.value@ };
                    assert(w.push(xf).drop_last() =~= w);
                }
                insert_scored(&mut sorted, x);
            },
            _ => {
                let s: String = name.to_owned();
                proof {
                    lemma_texts_push(rest@, s);
                }
                rest.push(s);
            },
        }
        i += 1;
    }
    assert(all.take(models@.len() as int) =~= all);
    let mut r: Vec<String> = Vec::new();
    let ghost head = models_of(scored(sorted@));
    let mut k: usize = 0;
    assert(texts(r@) =~= head.take(0));
    while k < sorted.len()
        invariant
            k <= sorted@.len(),
            head == models_of(scored(sorted@)),
            texts(r@) == head.take(k as int),
        decreases sorted.len() - k,
    {
        let s: String = sorted[k].model.clone();
        proof {
            lemma_texts_push(r@, s);
            assert(head[k as int] == s@);
            assert(head.take(k + 1) =~= head.take(k as int).push(s@));
        }
        r.push(s);
        k += 1;
    }
    assert(head.take(sorted@.len() as int) =~= head);
    let mut j: usize = 0;
    assert(texts(r@) =~= head + texts(rest@).take(0));
    while j < rest.len()
        invariant
            j <= rest@.len(),
            texts(r@) == head + texts(rest@).take(j as int),
        decreases rest.len() - j,
    {
        let s: String = rest[j].clone();
        proof {
            lemma_texts_push(r@, s);
            assert(texts(rest@).take(j + 1) =~= texts(rest@).take(j as int).push(s@));
            assert(head + texts(rest@).take(j as int).push(s@) =~= (head + texts(rest@).take(
                j as int,
            )).push(s@));
        }
        r.push(s);
        j += 1;
    }
    assert(texts(rest@).take(rest@.len() as int) =~= texts(rest@));
    r
}

// ---------------------------------------------------------------------------
// Cost and latency
// ---------------------------------------------------------------------------

/// Whether `cost` holds for each priced model its two prices added up.
pub open spec fn sums_prices(
    cost: Seq<(String, Option<Natural>)>,
    pricing: Seq<(String, ModelPricing)>,
) -> bool {
    &&& cost.len() == pricing.len()
    &&& forall|i: int|
        0 <= i < cost.len() ==> (#[trigger] cost[i]).0@ == pricing[i].0@ && cost[i].1 is Some
            && cost[i].1->0@ == pricing[i].1.input_per_million + pricing[i].1.output_per_million
}

/// The input and output price of each model, added up.
pub fn summed_cost(pricing: &Vec<(String, ModelPricing)>) -> (r: Vec<(String, Option<Natural>)>)
    ensures
        sums_prices(r@, pricing@),
{
    let mut r: Vec<(String, Option<Natural>)> = Vec::new();
    let mut i: usize = 0;
    while i < pricing.len()
        invariant
            i <= pricing@.len(),
            r@.len() == i,
            forall|j: int|
                0 <= j < i ==> (#[trigger] r@[j]).0@ == pricing@[j].0@ && r@[j].1 is Some
                    && r@[j].1->0@ == pricing@[j].1.input_per_million
                    + pricing@[j].1.output_per_million,
        decreases pricing.len() - i,
    {
        let p: ModelPricing = pricing[i].1;
        let sum: Natural = Natural::new(p.input_per_million as u128).plus(
            &Natural::new(p.output_per_million as u128),
        );
        r.push((pricing[i].0.clone(), Some(sum)));
        i += 1;
    }
    r
}

/// The projected next-turn cost of a model, in 10^-18 USD. Staying on the
/// warm model prices the repeated prefix at the cached-input rate (the input
/// rate where none is published); any other model re-bills it at the input
/// rate times the cache-creation multiplier, in millionths.
pub open spec fn projected_cost(
    p: ModelPricing,
    warm: bool,
    prefix_tokens: nat,
    multiplier: u64,
) -> nat {
    let prefix_rate = if warm {
        (match p.cached_input_per_million {
            Some(c) => c as nat,
            None => p.input_per_million as nat,
        }) * MILLION as nat
    } else {
        p.input_per_million as nat * multiplier as nat
    };
    prefix_tokens * prefix_rate + ASSUMED_NEW_INPUT_TOKENS as nat * (p.input_per_million as nat
        * MILLION as nat) + ASSUMED_OUTPUT_TOKENS as nat * (p.output_per_million as nat
        * MILLION as nat)
}

/// Projects the next-turn cost of a model.
pub fn cache_adjusted_cost(
    p: &ModelPricing,
    warm: bool,
    prefix_tokens: u64,
    multiplier: u64,
) -> (r: Natural)
    ensures
        r@ == projected_cost(*p, warm, prefix_tokens as nat, multiplier),
{
    let million: Natural = Natural::new(MILLION as u128);
    let prefix_rate: Natural = if warm {
        let rate: u64 = match p.cached_input_per_million {
            Some(c) => c,
            None => p.input_per_million,
        };
        Natural::new(rate as u128).times(&million)
    } else {
        Natural::new(p.input_per_million as u128).times(&Natural::new(multiplier as u128))
    };
    let prefix: Natural = Natural::new(prefix_tokens as u128).times(&prefix_rate);
    let fresh: Natural = Natural::new(ASSUMED_NEW_INPUT_TOKENS as u128).times(
        &Natural::new(p.input_per_million as u128).times(&million),
    );
    let output: Natural = Natural::new(ASSUMED_OUTPUT_TOKENS as u128).times(
        &Natural::new(p.output_per_million as u128).times(&million),
    );
    prefix.plus(&fresh).plus(&output)
}

/// What is known of the models: their price, their cost, their latency.
pub struct ModelMetricsService {
    pub cost: Vec<(String, Option<Natural>)>,
    pub pricing: Vec<(String, ModelPricing)>,
    pub latency: Vec<(String, Option<Natural>)>,
    /// In millionths of the input rate.
    pub cache_creation_multiplier: u64,
}

/// Whether a model is the one whose cache may be warm.
pub open spec fn is_warm(ctx: RankContext, model: Seq<char>) -> bool {
    match ctx.previous_model {
        Some(m) => m@ == model,
        None => false,
    }
}

/// The length of the repeated prefix, 0 where it is not known.
pub open spec fn prefix_of(ctx: RankContext) -> nat {
    match ctx.prefix_tokens {
        Some(n) => n as nat,
        None => 0,
    }
}

/// Whether `scores` gives each model its projected cost, where its price is known.
pub open spec fn scores_project(
    scores: Seq<(String, Option<Natural>)>,
    models: Seq<Seq<char>>,
    m: ModelMetricsService,
    ctx: RankContext,
) -> bool {
    forall|i: int|
        0 <= i < models.len() ==> metric(scores, #[trigger] models[i]) == projection(
            m,
            ctx,
            models[i],
        )
}

/// The projected cost of a model, where its price is known.
pub open spec fn projection(m: ModelMetricsService, ctx: RankContext, model: Seq<char>) -> Option<nat> {
    match named(m.pricing@, model) {
        Some(p) => Some(
            projected_cost(p, is_warm(ctx, model), prefix_of(ctx), m.cache_creation_multiplier),
        ),
        None => None,
    }
}

/// The value of a table entry.
spec fn entry_value(e: Option<Natural>) -> Option<nat> {
    match e {
        Some(n) => Some(n@),
        None => None,
    }
}

proof fn lemma_scores(
    scores: Seq<(String, Option<Natural>)>,
    m: ModelMetricsService,
    ctx: RankContext,
    k: int,
    i: int,
)
    requires
        0 <= i <= k < scores.len(),
        forall|j: int|
            0 <= j < scores.len() ==> entry_value((#[trigger] scores[j]).1) == projection(
                m,
                ctx,
                scores[j].0@,
            ),
    ensures
        ({
            let found = crate::assoc::named_from(scores, scores[k].0@, i);
            found is Some && entry_value(found->0) == projection(m, ctx, scores[k].0@)
        }),
    decreases k - i,
{
    if scores[i].0@ != scores[k].0@ {
        lemma_scores(scores, m, ctx, k, i + 1);
    }
}

impl ModelMetricsService {
    /// Projected next-turn cost per model, accounting for the warm provider cache.
    pub fn cache_adjusted_scores(&self, models: &Vec<String>, ctx: &RankContext) -> (r: Vec<
        (String, Option<Natural>),
    >)
        ensures
            scores_project(r@, texts(models@), *self, *ctx),
    {
        let prefix_tokens: u64 = match ctx.prefix_tokens {
            Some(n) => n,
            None => 0,
        };
        let mut r: Vec<(String, Option<Natural>)> = Vec::new();
        let mut i: usize = 0;
        while i < models.len()
            invariant
                i <= models@.len(),
                prefix_tokens == prefix_of(*ctx),
                r@.len() == i,
                forall|j: int| 0 <= j < i ==> (#[trigger] r@[j]).0@ == models@[j]@,
                forall|j: int|
                    0 <= j < i ==> entry_value((#[trigger] r@[j]).1) == projection(
                        *self,
                        *ctx,
                        r@[j].0@,
                    ),
            decreases models.len() - i,
        {
            let name: &str = models[i].as_str();
            let score: Option<Natural> = match find_named(&self.pricing, name) {
                Some(p) => {
                    let warm: bool = match &ctx.previous_model {
                        Some(m) => same_text(m.as_str(), name),
                        None => false,
                    };
                    Some(
                        cache_adjusted_cost(p, warm, prefix_tokens, self.cache_creation_multiplier),
                    )
                },
                None => None,
            };
            r.push((name.to_owned(), score));
            i += 1;
        }
        proof {
            let all = texts(models@);
            assert forall|i: int| 0 <= i < all.len() implies metric(r@, #[trigger] all[i])
                == projection(*self, *ctx, all[i]) by {
                lemma_scores(r@, *self, *ctx, i, 0);
                assert(r@[i].0@ == all[i]);
            }
        }
        r
    }

    /// Whether `r` is the ranking of `models` by `prefer`.
    pub open spec fn ranks(
        &self,
        models: Seq<Seq<char>>,
        prefer: SelectionPreference,
        ctx: RankContext,
        r: Seq<Seq<char>>,
    ) -> bool {
        match prefer {
            SelectionPreference::Cheapest => r == ranked(models, self.cost@),
            SelectionPreference::Fastest => r == ranked(models, self.latency@),
            SelectionPreference::CacheAware => exists|scores: Seq<(String, Option<Natural>)>|
                #[trigger] scores_project(scores, models, *self, ctx) && r == ranked(
                    models,
                    scores,
                ),
            SelectionPreference::Unranked => r == models,
        }
    }

    /// Rank `models` by `policy`, returning them in preference order.
    /// Models with no metric data are appended at the end in their original order.
    pub fn rank_models(
        &self,
        models: &Vec<String>,
        prefer: SelectionPreference,
        ctx: &RankContext,
    ) -> (r: Vec<String>)
        ensures
            self.ranks(texts(models@), prefer, *ctx, texts(r@)),
    {
        match prefer {
            SelectionPreference::Cheapest => rank_by_ascending_metric(models, &self.cost),
            SelectionPreference::Fastest => rank_by_ascending_metric(models, &self.latency),
            SelectionPreference::CacheAware => {
                let scores: Vec<(String, Option<Natural>)> = self.cache_adjusted_scores(
                    models,
                    ctx,
                );
                let r: Vec<String> = rank_by_ascending_metric(models, &scores);
                assert(scores_project(scores@, texts(models@), *self, *ctx));
                r
            },
            SelectionPreference::Unranked => clone_texts(models),
        }
    }
}

proof fn lemma_same_metrics(
    models: Seq<Seq<char>>,
    a: Seq<(String, Option<Natural>)>,
    b: Seq<(String, Option<Natural>)>,
)
    requires
        forall|i: int|
            0 <= i < models.len() ==> metric(a, #[trigger] models[i]) == metric(b, models[i]),
    ensures
        with_metric(models, a) == with_metric(models, b),
        without_metric(models, a) == without_metric(models, b),
    decreases models.len(),
{
    if models.len() > 0 {
        let shorter = models.drop_last();
        assert forall|i: int| 0 <= i < shorter.len() implies metric(a, #[trigger] shorter[i])
            == metric(b, shorter[i]) by {
            assert(shorter[i] == models[i]);
        }
        lemma_same_metrics(shorter, a, b);
        assert(models.last() == models[models.len() - 1]);
    }
}

/// A ranking depends on the values of the ranked models alone, so a
/// cache-aware ranking is fixed by the models, the prices and the context.
pub proof fn ranking_is_fixed_by_the_scores(
    m: ModelMetricsService,
    models: Seq<Seq<char>>,
    prefer: SelectionPreference,
    ctx: RankContext,
    r: Seq<Seq<char>>,
    other: Seq<Seq<char>>,
)
    requires
        m.ranks(models, prefer, ctx, r),
        m.ranks(models, prefer, ctx, other),
    ensures
        r == other,
{
    if prefer == SelectionPreference::CacheAware {
        let a = choose|a: Seq<(String, Option<Natural>)>|
            #[trigger] scores_project(a, models, m, ctx) && r == ranked(models, a);
        let b = choose|b: Seq<(String, Option<Natural>)>|
            #[trigger] scores_project(b, models, m, ctx) && other == ranked(models, b);
        lemma_same_metrics(models, a, b);
    }
}

// ---------------------------------------------------------------------------
// Sources
// ---------------------------------------------------------------------------

pub const DO_PRICING_URL: &'static str = "https://api.digitalocean.com/v2/gen-ai/models/catalog";

/// A model of a price catalog, with the prices it gives in micro-USD per
/// million tokens.
#[derive(Debug)]
pub struct CatalogModel {
    pub model_id: String,
    pub pricing: Option<CatalogPricing>,
}

/// The prices that a catalog gives.
#[derive(Debug, Clone, Copy, PartialEq, Eq, Structural)]
pub struct CatalogPricing {
    pub input_price_per_million: Option<u64>,
    pub output_price_per_million: Option<u64>,
    pub cache_read_input_price_per_million: Option<u64>,
}

/// The prices of a catalog entry, where one that is not given is 0.
pub open spec fn pricing_of(p: CatalogPricing) -> ModelPricing {
    ModelPricing {
        input_per_million: match p.input_price_per_million {
            Some(n) => n,
            None => 0,
        },
        output_per_million: match p.output_price_per_million {
            Some(n) => n,
            None => 0,
        },
        cached_input_per_million: p.cache_read_input_price_per_million,
    }
}

/// The name a model of the catalog goes by here: its alias where it has one.
pub open spec fn alias_of(aliases: Seq<(String, String)>, model_id: Seq<char>) -> Seq<char> {
    match named(aliases, model_id) {
        Some(a) => a@,
        None => model_id,
    }
}

/// The price that a catalog gives a model: of several the last.
pub open spec fn catalog_price(
    list: Seq<CatalogModel>,
    aliases: Seq<(String, String)>,
    model: Seq<char>,
) -> Option<ModelPricing>
    decreases list.len(),
{
    if list.len() == 0 {
        None
    } else {
        let m = list.last();
        if m.pricing is Some && alias_of(aliases, m.model_id@) == model {
            Some(pricing_of(m.pricing->0))
        } else {
            catalog_price(list.drop_last(), aliases, model)
        }
    }
}

/// The prices of a catalog by model.
pub fn catalog_pricing(list: &Vec<CatalogModel>, aliases: &Vec<(String, String)>) -> (r: Vec<
    (String, ModelPricing),
>)
    ensures
        forall|model: Seq<char>| #[trigger]
            named(r@, model) == catalog_price(list@, aliases@, model),
{
    let mut r: Vec<(String, ModelPricing)> = Vec::new();
    let mut i: usize = 0;
    assert(list@.take(0) =~= Seq::empty());
    while i < list.len()
        invariant
            i <= list@.len(),
            forall|model: Seq<char>| #[trigger]
                named(r@, model) == catalog_price(list@.take(i as int), aliases@, model),
        decreases list.len() - i,
    {
        proof {
            let cut = list@.take(i + 1);
            assert(cut.last() == list@[i as int]);
            assert(cut.drop_last() =~= list@.take(i as int));
        }
        if let Some(p) = &list[i].pricing {
            let key: String = match find_named(aliases, list[i].model_id.as_str()) {
                Some(a) => a.clone(),
                None => list[i].model_id.clone(),
            };
            let pricing: ModelPricing = ModelPricing {
                input_per_million: match p.input_price_per_million {
                    Some(n) => n,
                    None => 0,
                },
                output_per_million: match p.output_price_per_million {
                    Some(n) => n,
                    None => 0,
                },
                cached_input_per_million: p.cache_read_input_price_per_million,
            };
            put_named(&mut r, key, pricing);
        }
        i += 1;
    }
    assert(list@.take(i as int) =~= list@);
    r
}

/// A latency sample: the model it names, and its value where that is a number.
#[derive(Debug)]
pub struct LatencySample {
    pub model_name: Option<String>,
    pub value: Option<Natural>,
}

/// The latency of a model: of several samples the last with a number.
pub open spec fn sampled_latency(samples: Seq<LatencySample>, model: Seq<char>) -> Option<nat>
    decreases samples.len(),
{
    if samples.len() == 0 {
        None
    } else {
        let s = samples.last();
        match (s.model_name, s.value) {
            (Some(name), Some(v)) => if name@ == model {
                Some(v@)
            } else {
                sampled_latency(samples.drop_last(), model)
            },
            _ => sampled_latency(samples.drop_last(), model),
        }
    }
}

/// The latencies by model.
pub fn latency_table(samples: &Vec<LatencySample>) -> (r: Vec<(String, Option<Natural>)>)
    ensures
        forall|model: Seq<char>| #[trigger] metric(r@, model) == sampled_latency(samples@, model),
{
    let mut r: Vec<(String, Option<Natural>)> = Vec::new();
    let mut i: usize = 0;
    assert(samples@.take(0) =~= Seq::empty());
    while i < samples.len()
        invariant
            i <= samples@.len(),
            forall|model: Seq<char>| #[trigger]
                metric(r@, model) == sampled_latency(samples@.take(i as int), model),
        decreases samples.len() - i,
    {
        proof {
            let cut = samples@.take(i + 1);
            assert(cut.last() == samples@[i as int]);
            assert(cut.drop_last() =~= samples@.take(i as int));
        }
        if let Some(name) = &samples[i].model_name {
            if let Some(v) = &samples[i].value {
                let ghost before = r@;
                put_named(&mut r, name.clone(), Some(v.clone()));
                proof {
                    assert forall|model: Seq<char>| #[trigger]
                        metric(r@, model) == sampled_latency(samples@.take(i + 1), model) by {
                        assert(named(r@, model) == named(r@, model));
                        assert(metric(before, model) == sampled_latency(
                            samples@.take(i as int),
                            model,
                        ));
                    }
                }
            }
        }
        i += 1;
    }
    assert(samples@.take(i as int) =~= samples@);
    r
}

/// `s` without the slashes at its end.
pub open spec fn without_end_slashes(s: Seq<char>) -> Seq<char>
    decreases s.len(),
{
    if s.len() > 0 && s.last() == '/' { without_end_slashes(s.drop_last()) } else { s }
}

/// The url a latency query is sent to.
pub fn latency_query_url(url: &str) -> (r: String)
    ensures
        r@ == without_end_slashes(url@) + "/api/v1/query"@,
{
    let chars: Vec<char> = chars_of(url);
    let mut n: usize = chars.len();
    assert(chars@.take(n as int) =~= chars@);
    while n > 0 && chars[n - 1] == '/'
        invariant
            n <= chars@.len(),
            chars@ == url@,
            without_end_slashes(url@) == without_end_slashes(chars@.take(n as int)),
        decreases n,
    {
        assert(chars@.take(n as int).last() == chars@[n - 1]);
        assert(chars@.take(n as int).drop_last() =~= chars@.take(n - 1));
        n -= 1;
    }
    proof {
        if n > 0 {
            assert(chars@.take(n as int).last() == chars@[n - 1]);
        }
    }
    let base: String = text_of(&chars, 0, n);
    assert(base@ =~= chars@.take(n as int));
    concat2(base.as_str(), "/api/v1/query")
}

impl ModelMetricsService {
    /// A service without any metrics.
    pub fn new() -> (r: Self)
        ensures
            r.cost@.len() == 0,
            r.pricing@.len() == 0,
            r.latency@.len() == 0,
            r.cache_creation_multiplier == DEFAULT_CACHE_CREATION_MULTIPLIER,
    {
        ModelMetricsService {
            cost: Vec::new(),
            pricing: Vec::new(),
            latency: Vec::new(),
            cache_creation_multiplier: DEFAULT_CACHE_CREATION_MULTIPLIER,
        }
    }

    /// Replace the prices by those of a catalog, and the surcharge where one
    /// is configured.
    pub fn load_catalog(
        &mut self,
        list: &Vec<CatalogModel>,
        aliases: &Vec<(String, String)>,
        cache_creation_multiplier: Option<u64>,
    )
        ensures
            forall|model: Seq<char>| #[trigger]
                named(final(self).pricing@, model) == catalog_price(list@, aliases@, model),
            sums_prices(final(self).cost@, final(self).pricing@),
            final(self).latency == old(self).latency,
            final(self).cache_creation_multiplier == (match cache_creation_multiplier {
                Some(m) => m,
                None => old(self).cache_creation_multiplier,
            }),
    {
        let pricing: Vec<(String, ModelPricing)> = catalog_pricing(list, aliases);
        self.cost = summed_cost(&pricing);
        self.pricing = pricing;
        if let Some(m) = cache_creation_multiplier {
            self.cache_creation_multiplier = m;
        }
    }

    /// The current cost data.
    pub fn cost_snapshot(&self) -> (r: &Vec<(String, Option<Natural>)>)
        ensures
            *r == self.cost,
    {
        &self.cost
    }

    /// The current latency data.
    pub fn latency_snapshot(&self) -> (r: &Vec<(String, Option<Natural>)>)
        ensures
            *r == self.latency,
    {
        &self.latency
    }

    /// The full per-model pricing (input/output/cached-input).
    pub fn pricing_snapshot(&self) -> (r: &Vec<(String, ModelPricing)>)
        ensures
            *r == self.pricing,
    {
        &self.pricing
    }

    /// Replace the latencies by samples.
    pub fn load_latency(&mut self, samples: &Vec<LatencySample>)
        ensures
            forall|model: Seq<char>| #[trigger]
                metric(final(self).latency@, model) == sampled_latency(samples@, model),
            final(self).cost == old(self).cost,
            final(self).pricing == old(self).pricing,
            final(self).cache_creation_multiplier == old(self).cache_creation_multiplier,
    {
        self.latency = latency_table(samples);
    }
}

/// A warm model with a published cached rate at most its input rate projects
/// to no more than the same model would cold, if the multiplier is at least one.
pub proof fn warm_is_no_dearer_than_cold(p: ModelPricing, prefix_tokens: nat, multiplier: u64)
    requires
        multiplier >= MILLION,
        p.cached_input_per_million is Some ==> p.cached_input_per_million->0 <= p.input_per_million,
    ensures
        projected_cost(p, true, prefix_tokens, multiplier) <= projected_cost(
            p,
            false,
            prefix_tokens,
            multiplier,
        ),
{
    let warm_rate = match p.cached_input_per_million {
        Some(c) => c as nat,
        None => p.input_per_million as nat,
    };
    assert(warm_rate * MILLION as nat <= p.input_per_million as nat * multiplier as nat)
        by (nonlinear_arith)
        requires
            warm_rate <= p.input_per_million as nat,
            MILLION as nat <= multiplier as nat,
    ;
    assert(prefix_tokens * (warm_rate * MILLION as nat) <= prefix_tokens * (
    p.input_per_million as nat * multiplier as nat)) by (nonlinear_arith)
        requires
            warm_rate * MILLION as nat <= p.input_per_million as nat * multiplier as nat,
    ;
}

} // verus!
