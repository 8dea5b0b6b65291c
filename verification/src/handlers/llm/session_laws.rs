//! What holds of every routing decision of a session.

use crate::assoc::named;
use crate::chat::{content_text, Message};
use crate::expiring_map::current;
use crate::handlers::llm::session_router::{
    capability_of, carried_history, context_text, context_texts, decision_fits, opt_cost,
    resolution_fits, road_not_taken, routes, tokens_of, ProviderCacheCapability, RouteDecision, RouteFacts,
    RouteTables, RoutingBudget, SwitchReason,
};
use crate::router::model_metrics::ModelPricing;
use crate::router::orchestrator::{key_of, opt_str};
use crate::session_cache::memory::MemorySessionCache;
use crate::session_cache::{
    holds_visit, latest_visit_is_kept, lemma_visit_of, visits, BindingFacts, VisitFacts,
};
use crate::signals::schemas::opt_text;
use crate::text::{byte_len, first_index};
use vstd::prelude::*;

verus! {

/// Whether a cache that was last used `gap` milliseconds ago is kept: within
/// the extended time where the provider retains caches longer, else within
/// both the idle and the hard time.
pub open spec fn keeps_cache(cap: ProviderCacheCapability, gap: int) -> bool {
    if cap.extended_retention {
        gap <= cap.extended_ttl
    } else {
        gap <= cap.idle_ttl && gap <= cap.hard_ttl
    }
}

/// Whether a visit of a history is the first one of a model.
pub open spec fn is_visit_of(h: Seq<VisitFacts>, model: Seq<char>, i: int) -> bool {
    &&& 0 <= i < h.len()
    &&& h[i].model == model
    &&& forall|j: int| 0 <= j < i ==> (#[trigger] h[j]).model != model
}

/// Whether a model was never visited.
pub open spec fn never_visited(h: Seq<VisitFacts>, model: Seq<char>) -> bool {
    forall|j: int| 0 <= j < h.len() ==> (#[trigger] h[j]).model != model
}

/// The tokens of the session: those that the provider counted last, else
/// those of the request.
pub open spec fn session_tokens(b: BindingFacts, f: RouteFacts<'_>) -> int {
    if b.cached_tokens != 0 { b.cached_tokens as int } else { f.context_tokens as int }
}

/// What a token read from the cache costs, in 10^-18 USD.
pub open spec fn token_read(p: ModelPricing, cfg: RoutingBudget) -> int {
    if p.cached_input_per_million is Some {
        p.cached_input_per_million->0 * 1_000_000
    } else {
        p.input_per_million * cfg.cache_read_discount
    }
}

/// A session is warm exactly while the provider of its anchor keeps the
/// cache, and the prompt is known not to have changed. A clock that went
/// backwards counts as no time at all.
pub proof fn session_is_warm_within_its_window(
    d: RouteDecision,
    b: BindingFacts,
    budget: Option<RoutingBudget>,
    f: RouteFacts<'_>,
    tables: RouteTables,
    now: u64,
)
    requires
        decision_fits(d, Some(b), budget, f, tables, now),
    ensures
        ({
            let gap = if now >= b.last_used { now - b.last_used } else { 0 };
            let changed = b.prefix_hash is Some && f.prefix_hash is Some && b.prefix_hash->0
                != f.prefix_hash->0;
            &&& d.idle == gap
            &&& d.warm == (keeps_cache(capability_of(tables.capabilities@, b.anchor_model), gap)
                && !changed)
        }),
{
}

/// A session without a binding is cold.
pub proof fn new_session_is_cold(
    d: RouteDecision,
    budget: Option<RoutingBudget>,
    f: RouteFacts<'_>,
    tables: RouteTables,
    now: u64,
)
    requires
        decision_fits(d, None, budget, f, tables, now),
    ensures
        !d.warm,
        d.idle == 0,
        d.model@ == f.candidate_model@,
        d.default_model@ == f.candidate_model@,
        opt_text(d.route_name) == opt_str(f.candidate_route),
        d.switches == 0,
        d.baseline_usd@ == 0,
        d.switch_spend_usd@ == 0,
        d.session_cost_usd@ == 0,
        d.cached_tokens == f.context_tokens,
        d.cost is None,
        d.counterfactual is None,
{
}

/// The window of a model is that of its provider, which stands before the
/// first slash of its name; where the provider is not known, five minutes idle
/// and one hour at most are assumed.
pub proof fn window_is_that_of_the_provider(
    known: Seq<(String, ProviderCacheCapability)>,
    provider: Seq<char>,
    id: Seq<char>,
)
    requires
        !provider.contains('/'),
    ensures
        capability_of(known, provider + seq!['/'] + id) == capability_of(known, provider),
        named(known, provider) is Some ==> capability_of(known, provider) == named(
            known,
            provider,
        )->0,
        named(known, provider) is None ==> {
            let cap = capability_of(known, provider);
            cap.idle_ttl == 300_000 && cap.hard_ttl == 3_600_000 && !cap.extended_retention
        },
{
    let model = provider + seq!['/'] + id;
    lemma_first_slash(provider, id);
    lemma_no_slash(provider);
    assert(model.take(provider.len() as int) =~= provider);
}

proof fn lemma_first_slash(provider: Seq<char>, id: Seq<char>)
    requires
        !provider.contains('/'),
    ensures
        first_index(provider + seq!['/'] + id, '/') == Some(provider.len() as int),
    decreases provider.len(),
{
    let model = provider + seq!['/'] + id;
    crate::text::lemma_first_index(model, '/');
    assert(model[provider.len() as int] == '/');
    assert forall|j: int| 0 <= j < provider.len() implies model[j] != '/' by {
        assert(model[j] == provider[j]);
        assert(provider.contains(provider[j]));
    }
}

proof fn lemma_no_slash(provider: Seq<char>)
    requires
        !provider.contains('/'),
    ensures
        first_index(provider, '/') is None,
{
    crate::text::lemma_first_index(provider, '/');
}

/// Where both prices are known, a switch is priced at what reading the
/// context costs more on the candidate: at its full price for a candidate
/// that was never visited, and for one whose cache is gone.
pub proof fn cold_candidate_is_priced_in_full(
    d: RouteDecision,
    b: BindingFacts,
    cfg: RoutingBudget,
    f: RouteFacts<'_>,
    tables: RouteTables,
    now: u64,
    i: int,
)
    requires
        decision_fits(d, Some(b), Some(cfg), f, tables, now),
        d.warm,
        f.candidate_model@ != b.anchor_model,
        named(tables.prices@, b.anchor_model) is Some,
        named(tables.prices@, f.candidate_model@) is Some,
        never_visited(b.history, f.candidate_model@) || (is_visit_of(
            b.history,
            f.candidate_model@,
            i,
        ) && (b.history[i].last_used > now || !keeps_cache(
            capability_of(tables.capabilities@, f.candidate_model@),
            now - b.history[i].last_used,
        ))),
    ensures
        d.cost is Some,
        d.cost->0@.candidate == session_tokens(b, f) * (named(
            tables.prices@,
            f.candidate_model@,
        )->0.input_per_million * 1_000_000),
        d.cost->0@.anchor == session_tokens(b, f) * token_read(
            named(tables.prices@, b.anchor_model)->0,
            cfg,
        ),
{
    lemma_visit_of(b.history, f.candidate_model@, 0);
    let t = session_tokens(b, f);
    let c = named(tables.prices@, f.candidate_model@)->0;
    assert(0 * c.cached_rate(cfg.cache_read_discount) == 0) by (nonlinear_arith);
}

/// A candidate whose cache is still kept reads what it saw of the context at
/// its cached price, and the rest at its full price.
pub proof fn warm_candidate_is_credited(
    d: RouteDecision,
    b: BindingFacts,
    cfg: RoutingBudget,
    f: RouteFacts<'_>,
    tables: RouteTables,
    now: u64,
    i: int,
)
    requires
        decision_fits(d, Some(b), Some(cfg), f, tables, now),
        d.warm,
        f.candidate_model@ != b.anchor_model,
        named(tables.prices@, b.anchor_model) is Some,
        named(tables.prices@, f.candidate_model@) is Some,
        is_visit_of(b.history, f.candidate_model@, i),
        b.history[i].last_used <= now,
        keeps_cache(
            capability_of(tables.capabilities@, f.candidate_model@),
            now - b.history[i].last_used,
        ),
    ensures
        d.cost is Some,
        ({
            let t = session_tokens(b, f);
            let seen = if b.history[i].cached_tokens < t {
                b.history[i].cached_tokens as int
            } else {
                t
            };
            let p = named(tables.prices@, f.candidate_model@)->0;
            d.cost->0@.candidate == seen * token_read(p, cfg) + (t - seen) * (p.input_per_million
                * 1_000_000)
        }),
{
    lemma_visit_of(b.history, f.candidate_model@, 0);
}

/// Credit is given for what a session bound to the candidate at the time of
/// its visit would have kept warm, and for nothing else: otherwise the switch
/// is decided as if the candidate had never been visited.
pub proof fn credit_follows_warmth(
    d: RouteDecision,
    unvisited: RouteDecision,
    bound: RouteDecision,
    b: BindingFacts,
    cfg: RoutingBudget,
    f: RouteFacts<'_>,
    tables: RouteTables,
    now: u64,
    i: int,
)
    requires
        is_visit_of(b.history, f.candidate_model@, i),
        b.history[i].last_used <= now,
        decision_fits(d, Some(b), Some(cfg), f, tables, now),
        decision_fits(
            unvisited,
            Some(BindingFacts { history: Seq::empty(), ..b }),
            Some(cfg),
            f,
            tables,
            now,
        ),
        decision_fits(
            bound,
            Some(
                BindingFacts {
                    anchor_model: f.candidate_model@,
                    last_used: b.history[i].last_used,
                    prefix_hash: None,
                    ..b
                },
            ),
            Some(cfg),
            f,
            tables,
            now,
        ),
    ensures
        !bound.warm ==> {
            &&& d.model@ == unvisited.model@
            &&& d.reason == unvisited.reason
            &&& opt_cost(d.cost) == opt_cost(unvisited.cost)
            &&& d.switch_spend_usd@ == unvisited.switch_spend_usd@
        },
{
    lemma_visit_of(b.history, f.candidate_model@, 0);
    lemma_visit_of(Seq::<VisitFacts>::empty(), f.candidate_model@, 0);
}

/// The never-switch baseline grows each warm turn by what reading the context
/// from the cache of the session's first model costs, whatever the candidate is.
pub proof fn baseline_grows_by_the_read_cost(
    d: RouteDecision,
    b: BindingFacts,
    cfg: RoutingBudget,
    f: RouteFacts<'_>,
    tables: RouteTables,
    now: u64,
)
    requires
        decision_fits(d, Some(b), Some(cfg), f, tables, now),
        d.warm,
    ensures
        ({
            let first = if b.default_model.len() > 0 { b.default_model } else { b.anchor_model };
            &&& d.default_model@ == first
            &&& named(tables.prices@, first) is None ==> d.baseline_usd@ == b.baseline_usd
            &&& named(tables.prices@, first) is Some ==> d.baseline_usd@ == b.baseline_usd
                + session_tokens(b, f) * token_read(named(tables.prices@, first)->0, cfg)
        }),
{
    assert(d.facts(f.prefix_hash, now).baseline_usd == d.baseline_usd@);
    assert(d.facts(f.prefix_hash, now).default_model == d.default_model@);
}

/// A warm session leaves its anchor exactly where that costs nothing, cannot
/// be priced, or keeps all that was spent on switching within the configured
/// percentage of the baseline. What is spent is the difference in price, and
/// every move to another model counts as a switch.
pub proof fn switch_is_taken_iff_affordable(
    d: RouteDecision,
    b: BindingFacts,
    cfg: RoutingBudget,
    f: RouteFacts<'_>,
    tables: RouteTables,
    now: u64,
)
    requires
        decision_fits(d, Some(b), Some(cfg), f, tables, now),
        d.warm,
        f.candidate_model@ != b.anchor_model,
        b.switches < u32::MAX,
    ensures
        (d.cost is None) == (named(tables.prices@, b.anchor_model) is None || named(
            tables.prices@,
            f.candidate_model@,
        ) is None),
        d.cost is None ==> {
            &&& d.model@ == f.candidate_model@
            &&& d.switch_spend_usd@ == b.switch_spend_usd
            &&& d.reason == SwitchReason::NoPricing
        },
        d.cost is Some ==> {
            let extra = d.cost->0@.candidate - d.cost->0@.anchor;
            let spent = b.switch_spend_usd + extra;
            let affordable = 100 * (spent * cfg.max_overhead_pct.den)
                <= cfg.max_overhead_pct.num * d.baseline_usd@;
            &&& extra <= 0 ==> d.model@ == f.candidate_model@ && d.switch_spend_usd@
                == b.switch_spend_usd && d.reason == SwitchReason::Free
            &&& extra > 0 && affordable ==> d.model@ == f.candidate_model@ && d.switch_spend_usd@
                == spent && d.reason == SwitchReason::WithinCap
            &&& extra > 0 && !affordable ==> d.model@ == b.anchor_model && d.switch_spend_usd@
                == b.switch_spend_usd && d.reason == SwitchReason::OverCap
        },
        d.model@ == f.candidate_model@ ==> d.switches == b.switches + 1 && opt_text(d.route_name)
            == opt_str(f.candidate_route),
        d.model@ != f.candidate_model@ ==> d.switches == b.switches && opt_text(d.route_name)
            == b.route_name,
{
    let n = d.facts(f.prefix_hash, now);
    assert(n.switch_spend_usd == d.switch_spend_usd@);
    assert(n.baseline_usd == d.baseline_usd@);
    assert(n.anchor_model == d.model@);
    assert(n.switches == d.switches);
    assert(n.route_name == opt_text(d.route_name));
    if d.cost is Some {
        let den = cfg.max_overhead_pct.den as int;
        let spent = b.switch_spend_usd + (d.cost->0@.candidate - d.cost->0@.anchor);
        assert(spent * (100 * den) == 100 * (spent * den)) by (nonlinear_arith);
    }
}

/// A router that agrees with the anchor is followed, at no spend and without
/// a switch.
pub proof fn staying_costs_nothing(
    d: RouteDecision,
    b: BindingFacts,
    budget: Option<RoutingBudget>,
    f: RouteFacts<'_>,
    tables: RouteTables,
    now: u64,
)
    requires
        decision_fits(d, Some(b), budget, f, tables, now),
        d.warm,
        f.candidate_model@ == b.anchor_model,
    ensures
        d.model@ == b.anchor_model,
        opt_text(d.route_name) == opt_str(f.candidate_route),
        d.switch_spend_usd@ == b.switch_spend_usd,
        d.switches == b.switches,
        d.reason == SwitchReason::SameAnchor,
        d.cost is None,
{
    let n = d.facts(f.prefix_hash, now);
    assert(n.switch_spend_usd == d.switch_spend_usd@);
    assert(n.switches == d.switches);
}

/// Without a budget every candidate is honored, and no money is counted.
pub proof fn without_a_budget_switches_are_free(
    d: RouteDecision,
    b: BindingFacts,
    f: RouteFacts<'_>,
    tables: RouteTables,
    now: u64,
)
    requires
        decision_fits(d, Some(b), None, f, tables, now),
    ensures
        d.model@ == f.candidate_model@,
        d.warm ==> d.baseline_usd@ == b.baseline_usd && d.switch_spend_usd@ == b.switch_spend_usd,
        !d.warm ==> d.baseline_usd@ == 0 && d.switch_spend_usd@ == 0,
        d.cost is None,
        d.counterfactual is None,
{
    let n = d.facts(f.prefix_hash, now);
    assert(n.switch_spend_usd == d.switch_spend_usd@);
    assert(n.baseline_usd == d.baseline_usd@);
}

/// A session that went cold follows the router and counts its switches anew.
/// Its totals and its first model are kept only under a budget that does not
/// replenish.
pub proof fn cold_session_starts_anew(
    d: RouteDecision,
    b: BindingFacts,
    budget: Option<RoutingBudget>,
    f: RouteFacts<'_>,
    tables: RouteTables,
    now: u64,
)
    requires
        decision_fits(d, Some(b), budget, f, tables, now),
        !d.warm,
    ensures
        d.model@ == f.candidate_model@,
        opt_text(d.route_name) == opt_str(f.candidate_route),
        d.switches == 0,
        d.reason == SwitchReason::Cold,
        d.cost is None,
        d.counterfactual is None,
        budget is None || budget->0.replenish_on_rebind ==> {
            &&& d.baseline_usd@ == 0
            &&& d.switch_spend_usd@ == 0
            &&& d.default_model@ == f.candidate_model@
        },
        budget is Some && !budget->0.replenish_on_rebind ==> {
            &&& d.baseline_usd@ == b.baseline_usd
            &&& d.switch_spend_usd@ == b.switch_spend_usd
            &&& d.default_model@ == (if b.default_model.len() > 0 {
                b.default_model
            } else {
                f.candidate_model@
            })
        },
{
    let n = d.facts(f.prefix_hash, now);
    assert(n.switch_spend_usd == d.switch_spend_usd@);
    assert(n.baseline_usd == d.baseline_usd@);
    assert(n.switches == d.switches);
    assert(n.default_model == d.default_model@);
}

/// What is remembered of a turn: the model that serves it, at this time, with
/// the tokens of the request (those of the turn before where they are not
/// known), the cost of the conversation so far, and, unless the prompt
/// changed, the models visited before.
pub proof fn turn_is_remembered(
    d: RouteDecision,
    b: BindingFacts,
    budget: Option<RoutingBudget>,
    f: RouteFacts<'_>,
    tables: RouteTables,
    now: u64,
)
    requires
        decision_fits(d, Some(b), budget, f, tables, now),
        b.history.len() <= 8,
        forall|i: int| 0 <= i < b.history.len() ==> (#[trigger] b.history[i]).last_used <= now,
    ensures
        d.cached_tokens == (if f.context_tokens > 0 {
            f.context_tokens
        } else {
            b.cached_tokens
        }),
        d.session_cost_usd@ == b.session_cost_usd,
        holds_visit(
            visits(d.history@),
            VisitFacts { model: d.model@, last_used: now, cached_tokens: d.cached_tokens },
        ),
        b.prefix_hash is Some && f.prefix_hash is Some && b.prefix_hash->0 != f.prefix_hash->0
            ==> d.history@.len() == 1,
{
    let n = d.facts(f.prefix_hash, now);
    assert(n.session_cost_usd == d.session_cost_usd@);
    assert(n.cached_tokens == d.cached_tokens);
    assert(n.history == visits(d.history@));
    let before = carried_history(Some(b), f.prefix_hash);
    let v = VisitFacts { model: d.model@, last_used: now, cached_tokens: d.cached_tokens };
    latest_visit_is_kept(before, v);
    if b.prefix_hash is Some && f.prefix_hash is Some && b.prefix_hash->0 != f.prefix_hash->0 {
        lemma_visit_of(before, d.model@, 0);
        assert(visits(d.history@).len() == 1);
    }
}

/// A binding is kept for a minute longer than its cache can stay warm while
/// it is idle.
pub proof fn binding_is_kept_beyond_its_window(
    d: RouteDecision,
    existing: Option<BindingFacts>,
    budget: Option<RoutingBudget>,
    f: RouteFacts<'_>,
    tables: RouteTables,
    now: u64,
    gap: u64,
)
    requires
        decision_fits(d, existing, budget, f, tables, now),
        gap <= u64::MAX - 60_000,
    ensures
        keeps_cache(capability_of(tables.capabilities@, d.model@), gap as int) == (d.gc_ttl >= gap
            + 60_000),
{
}

/// The route that was not taken is recorded exactly where the router was
/// overridden and the budget asks for it; a route with a name is named.
pub proof fn vetoed_route_is_recorded(
    d: RouteDecision,
    existing: Option<BindingFacts>,
    cfg: RoutingBudget,
    f: RouteFacts<'_>,
    tables: RouteTables,
    now: u64,
)
    requires
        decision_fits(d, existing, Some(cfg), f, tables, now),
    ensures
        (d.counterfactual is Some) == (d.model@ != f.candidate_model@ && cfg.record_counterfactual),
        d.counterfactual is Some ==> {
            let text = d.counterfactual->0@;
            &&& text.take(f.candidate_model@.len() as int) == f.candidate_model@
            &&& f.candidate_route is None ==> text == f.candidate_model@
            &&& f.candidate_route is Some && f.candidate_route->0@.len() > 0
                && f.candidate_route->0@ != "none"@ ==> text == f.candidate_model@ + " ("@
                + f.candidate_route->0@ + ")"@
        },
{
    let n = d.facts(f.prefix_hash, now);
    assert(n.anchor_model == d.model@);
    if d.counterfactual is Some {
        let text = d.counterfactual->0@;
        assert(opt_text(d.counterfactual) == Some(text));
        assert(text.take(f.candidate_model@.len() as int) =~= f.candidate_model@);
    }
}

/// A session that the client names is that session; otherwise one is told by
/// the prompt, if that is wanted and the request did not opt out. The hash of
/// the prompt is known in either case, unless the request opted out.
pub proof fn named_session_goes_first(
    named: Option<Seq<char>>,
    affinity: Option<(Seq<char>, u64)>,
    enabled: bool,
    cache_off: bool,
    hash: Option<u64>,
    session: Option<Seq<char>>,
)
    requires
        resolution_fits(named, affinity, enabled, cache_off, hash, session),
    ensures
        named is Some ==> session == named,
        named is None && enabled && !cache_off && affinity is Some ==> session == Some(
            (affinity->0).0,
        ),
        named is None && (!enabled || cache_off || affinity is None) ==> session is None,
        !cache_off && affinity is Some ==> hash == Some((affinity->0).1),
        cache_off || affinity is None ==> hash is None,
{
}

/// A routed request leaves its session bound to the model that was chosen,
/// until the binding's time is over; without a session nothing is kept, and
/// the router's choice stands.
pub proof fn routed_request_is_bound(
    before: MemorySessionCache,
    budget: Option<RoutingBudget>,
    f: RouteFacts<'_>,
    tables: RouteTables,
    now: u64,
    d: RouteDecision,
    after: MemorySessionCache,
    later: u64,
)
    requires
        routes(before, budget, f, tables, now, d, after),
        now <= later,
    ensures
        f.session_id is None ==> after == before && d.model@ == f.candidate_model@ && !d.warm
            && d.reason == SwitchReason::Cold && opt_text(d.route_name) == opt_str(
            f.candidate_route,
        ),
        f.session_id is Some ==> {
            let key = key_of(opt_str(f.tenant_id), f.session_id->0@);
            let held = current(after@, key, later);
            &&& later < now + d.gc_ttl ==> held is Some && held->0@.anchor_model == d.model@
                && held->0@.last_used == now && held->0@.route_name == opt_text(d.route_name)
                && held->0@.prefix_hash == f.prefix_hash
            &&& later >= now + d.gc_ttl ==> held is None
        },
{
}

/// Routing a request leaves the other sessions alone while there is room.
pub proof fn other_sessions_are_left_alone(
    before: MemorySessionCache,
    budget: Option<RoutingBudget>,
    f: RouteFacts<'_>,
    tables: RouteTables,
    now: u64,
    d: RouteDecision,
    after: MemorySessionCache,
    other: Seq<char>,
    later: u64,
)
    requires
        routes(before, budget, f, tables, now, d, after),
        before.size() < before.limit(),
        f.session_id is Some ==> other != key_of(opt_str(f.tenant_id), f.session_id->0@),
    ensures
        current(after@, other, later) == current(before@, other, later),
{
}

/// Switches are recorded by what decided them, and as retained exactly where
/// the cap forbade them.
pub proof fn switches_are_recorded(reason: SwitchReason)
    ensures
        reason is OverCap ==> reason.decision_label() == "retained"@,
        !(reason is OverCap) ==> reason.decision_label() == "allowed"@,
        SwitchReason::SameAnchor.reason_label() == "same_anchor"@,
        SwitchReason::Free.reason_label() == "free"@,
        SwitchReason::WithinCap.reason_label() == "within_cap"@,
        SwitchReason::OverCap.reason_label() == "over_cap"@,
        SwitchReason::NoPricing.reason_label() == "no_pricing"@,
        SwitchReason::Cold.reason_label() == ""@,
{
}

/// The size of a request is what was counted; where nothing was, a token for
/// every four bytes of its texts, line by line.
pub proof fn tokens_are_counted_or_estimated(messages: Seq<Message>, m: Message, n: u64)
    ensures
        tokens_of(messages, Some(n)) == n,
        4 * tokens_of(messages, None) <= byte_len(context_text(messages)) < 4 * tokens_of(
            messages,
            None,
        ) + 4,
        m.content is None ==> context_text(messages.push(m)) == context_text(messages),
        m.content is Some && context_texts(messages).len() > 0 ==> context_text(messages.push(m))
            == context_text(messages) + "\n"@ + content_text(m.content->0),
        m.content is Some && messages.len() == 0 ==> context_text(messages.push(m))
            == content_text(m.content->0),
{
    assert(messages.push(m).drop_last() =~= messages);
    if m.content is Some {
        let t = content_text(m.content->0);
        let before = context_texts(messages);
        assert(context_texts(messages.push(m)) == before.push(t));
        assert(before.push(t).drop_last() =~= before);
        if messages.len() == 0 {
            assert(before =~= Seq::empty());
        }
    }
}

/// A route that was not taken is told by its model, with its name behind where
/// it has one.
pub proof fn untaken_route_is_told(candidate: Seq<char>, route: Seq<char>)
    ensures
        road_not_taken(candidate, None) == candidate,
        road_not_taken(candidate, Some("none"@)) == candidate,
        route.len() == 0 ==> road_not_taken(candidate, Some(route)) == candidate,
        route.len() > 0 && route != "none"@ ==> road_not_taken(candidate, Some(route)) == candidate
            + " ("@ + route + ")"@,
{
}

} // verus!
